use vstd::prelude::*;

use crate::text::{dec_chars, hex_chars, push_char, push_dec, push_hex, push_hex_padded, push_str, zero_pad};

verus! {

/// Graal client type for injection.
#[derive(Debug, Clone, Copy, PartialEq, Eq, Structural)]
pub enum ClientType {
    /// The Graal V6 client.
    GraalV6,
    /// The Graal Worlds client.
    GraalWorlds,
}

impl ClientType {
    /// The display name of the client.
    pub fn name(&self) -> (s: &'static str)
        ensures
            s@ == match self {
                ClientType::GraalV6 => "Graal V6"@,
                ClientType::GraalWorlds => "Graal Worlds"@,
            },
    {
        match self {
            ClientType::GraalV6 => "Graal V6",
            ClientType::GraalWorlds => "Graal Worlds",
        }
    }

    /// The module of the client's process.
    pub fn target_module(&self) -> (s: &'static str)
        ensures
            s@ == match self {
                ClientType::GraalV6 => "Graal.exe"@,
                ClientType::GraalWorlds => "Worlds.exe"@,
            },
    {
        match self {
            ClientType::GraalV6 => "Graal.exe",
            ClientType::GraalWorlds => "Worlds.exe",
        }
    }

    /// The name under which the script variable is created by default.
    pub fn default_variable_name(&self) -> (s: &'static str)
        ensures
            s@ == match self {
                ClientType::GraalV6 => "VarName"@,
                ClientType::GraalWorlds => "."@,
            },
    {
        match self {
            ClientType::GraalV6 => "VarName",
            ClientType::GraalWorlds => ".",
        }
    }

    /// Offset of the `TGraalVar` constructor in the module.
    pub fn tgralvar_constructor_offset(&self) -> (o: usize)
        ensures
            o == match self {
                ClientType::GraalV6 => 0x195770usize,
                ClientType::GraalWorlds => 0x9A340usize,
            },
    {
        match self {
            ClientType::GraalV6 => 0x195770,
            ClientType::GraalWorlds => 0x9A340,
        }
    }

    /// Offset of the `TGraalVar::SetScript` method in the module.
    pub fn tgralvar_setscript_offset(&self) -> (o: usize)
        ensures
            o == match self {
                ClientType::GraalV6 => 0x196290usize,
                ClientType::GraalWorlds => 0x9EDE0usize,
            },
    {
        match self {
            ClientType::GraalV6 => 0x196290,
            ClientType::GraalWorlds => 0x9EDE0,
        }
    }

    /// Whether the client's methods use the `thiscall` calling convention.
    pub fn uses_thiscall(&self) -> (b: bool)
        ensures
            b == (*self == ClientType::GraalV6),
    {
        match self {
            ClientType::GraalV6 => true,
            ClientType::GraalWorlds => false,
        }
    }

    /// Offset of the value that tells that the client is initialised (V6 only).
    pub fn magic_check_offset(&self) -> (o: Option<usize>)
        ensures
            o == match self {
                ClientType::GraalV6 => Some(0x17da90usize),
                ClientType::GraalWorlds => None,
            },
    {
        match self {
            ClientType::GraalV6 => Some(0x17da90),
            ClientType::GraalWorlds => None,
        }
    }

    /// The value to wait for at the magic check offset (V6 only).
    pub fn magic_check_value(&self) -> (v: Option<u32>)
        ensures
            v == match self {
                ClientType::GraalV6 => Some(157876074u32),
                ClientType::GraalWorlds => None,
            },
    {
        match self {
            ClientType::GraalV6 => Some(157876074),
            ClientType::GraalWorlds => None,
        }
    }
}

/// GS2 string structure as laid out in the client's memory: a length and a value, followed by
/// the string's bytes and a null terminator.
pub struct GS2String {
    /// The length of the string.
    pub length: u32,
    /// The value field (always 100 for GS2 strings).
    pub value: u32,
}

/// Injector of GS2 bytecode into a running client.
pub struct FridaInjector {
    client_type: ClientType,
}

/// A character of a name inside a single-quoted JavaScript string: backslashes and single
/// quotes get a backslash.
pub open spec fn escape_js_char(c: char) -> Seq<char> {
    if c == '\\' {
        seq!['\\', '\\']
    } else if c == '\'' {
        seq!['\\', '\'']
    } else {
        seq![c]
    }
}

/// A name escaped for a single-quoted JavaScript string.
pub open spec fn escape_js(s: Seq<char>) -> Seq<char>
    decreases s.len(),
{
    if s.len() == 0 {
        Seq::empty()
    } else {
        escape_js(s.drop_last()) + escape_js_char(s.last())
    }
}

/// The calling-convention argument of the client's native functions.
pub open spec fn thiscall_suffix(c: ClientType) -> Seq<char> {
    if c == ClientType::GraalV6 {
        ", 'thiscall'"@
    } else {
        Seq::empty()
    }
}

/// The wait for the client's initialisation, for clients that have a magic check.
pub open spec fn magic_check_text(c: ClientType) -> Seq<char> {
    match c {
        ClientType::GraalV6 => "// Wait for client initialization\n    var checkAddress = baseAddress.add(0x"@
            + hex_chars(0x17da90, true) + ");\n    while (checkAddress.readInt() !== "@ + dec_chars(157876074)
            + ") {\n        await new Promise(resolve => setTimeout(resolve, 100));\n    }\n"@,
        ClientType::GraalWorlds => Seq::empty(),
    }
}

/// The name of a client, as a sequence of characters.
pub open spec fn client_name(c: ClientType) -> Seq<char> {
    match c {
        ClientType::GraalV6 => "Graal V6"@,
        ClientType::GraalWorlds => "Graal Worlds"@,
    }
}

/// The module of a client, as a sequence of characters.
pub open spec fn client_module(c: ClientType) -> Seq<char> {
    match c {
        ClientType::GraalV6 => "Graal.exe"@,
        ClientType::GraalWorlds => "Worlds.exe"@,
    }
}

/// The offset of a client's `TGraalVar` constructor.
pub open spec fn constructor_offset(c: ClientType) -> nat {
    match c {
        ClientType::GraalV6 => 0x195770,
        ClientType::GraalWorlds => 0x9A340,
    }
}

/// The offset of a client's `TGraalVar::SetScript` method.
pub open spec fn setscript_offset(c: ClientType) -> nat {
    match c {
        ClientType::GraalV6 => 0x196290,
        ClientType::GraalWorlds => 0x9EDE0,
    }
}

/// The Frida script that creates a script variable named `name` in the client and gives it
/// the bytecode written in hexadecimal as `hex`.
pub open spec fn injection_script(c: ClientType, hex: Seq<char>, name: Seq<char>) -> Seq<char> {
    "// Generated by GraalHax - GS2 Bytecode Injector for "@ + client_name(c) + "\n\n"@
        + "function create_tstring(e) {\n    const r = Memory.alloc(8);\n    const a = Memory.alloc(e.length + 8 + 10);\n    r.writePointer(a);\n    a.writeInt(e.length);\n    ptr(parseInt(a) + 4).writeInt(100);\n\n    for (let i = 0; i < e.length; i++) {\n        ptr(parseInt(a) + 8).add(i).writeU8(e.charCodeAt(i));\n    }\n    ptr(parseInt(a) + 8).add(e.length).writeU8(0);\n    return r;\n}\n\nconst hexToBytecode = (hex) => {\n    return hex.split(\" \").map(byte => String.fromCharCode(parseInt(byte, 16))).join(\"\");\n};\n\nasync function injectBytecode(variableName, bytecodeHex) {\n"@
        + "    var baseAddress = Process.findModuleByName(\""@ + client_module(c) + "\").base;\n"@
        + magic_check_text(c)
        + "    const TGraalVar_TGraalVar = new NativeFunction(\n        baseAddress.add(0x"@
        + hex_chars(constructor_offset(c), true) + "), 'void', ['pointer', 'pointer']"@ + thiscall_suffix(c)
        + ");\n    const TGraalVar_SetScript = new NativeFunction(\n        baseAddress.add(0x"@
        + hex_chars(setscript_offset(c), true) + "), 'void', ['pointer', 'pointer']"@ + thiscall_suffix(c)
        + ");\n"@
        + "    console.log(\"Allocating variable memory...\");\n    const variable = Memory.alloc(0x1000);\n\n    console.log(\"Creating TGraalVar with name: \" + variableName);\n    TGraalVar_TGraalVar(variable, create_tstring(variableName));\n\n    console.log(\"Setting script bytecode (\" + bytecodeHex.length / 3 + \" bytes)...\");\n    TGraalVar_SetScript(variable, create_tstring(hexToBytecode(bytecodeHex)));\n\n    console.log(\"SCRIPT INJECTED successfully\");\n    return true;\n}\n\n// Auto-inject on script load\n"@
        + "injectBytecode('"@ + escape_js(name) + "', \""@ + hex + "\").catch(err => {\n"@
        + "    console.log(\"Injection error: \" + err);\n});\n"@
}

/// The script binds each native function at the client's own offset: right after
/// `TGraalVar_TGraalVar = new NativeFunction(` and the base address comes the constructor's
/// offset, and after `TGraalVar_SetScript = new NativeFunction(` the offset of `SetScript`,
/// both in upper-case hexadecimal.
pub proof fn law_script_binds_offsets(c: ClientType, hex: Seq<char>, name: Seq<char>)
    ensures
        exists|p: Seq<char>, q: Seq<char>|
            #[trigger] injection_script(c, hex, name) == p
                + "TGraalVar_TGraalVar = new NativeFunction(\n        baseAddress.add(0x"@ + hex_chars(
                constructor_offset(c),
                true,
            ) + q,
        exists|p: Seq<char>, q: Seq<char>|
            #[trigger] injection_script(c, hex, name) == p
                + "TGraalVar_SetScript = new NativeFunction(\n        baseAddress.add(0x"@ + hex_chars(
                setscript_offset(c),
                true,
            ) + q,
{
    let ctor_at = "    const TGraalVar_TGraalVar = new NativeFunction(\n        baseAddress.add(0x"@;
    let ctor = "TGraalVar_TGraalVar = new NativeFunction(\n        baseAddress.add(0x"@;
    let set_at = ");\n    const TGraalVar_SetScript = new NativeFunction(\n        baseAddress.add(0x"@;
    let set = "TGraalVar_SetScript = new NativeFunction(\n        baseAddress.add(0x"@;
    reveal_strlit("    const TGraalVar_TGraalVar = new NativeFunction(\n        baseAddress.add(0x");
    reveal_strlit("TGraalVar_TGraalVar = new NativeFunction(\n        baseAddress.add(0x");
    reveal_strlit(");\n    const TGraalVar_SetScript = new NativeFunction(\n        baseAddress.add(0x");
    reveal_strlit("TGraalVar_SetScript = new NativeFunction(\n        baseAddress.add(0x");
    reveal_strlit("    const ");
    reveal_strlit(");\n    const ");
    assert(ctor_at =~= "    const "@ + ctor);
    assert(set_at =~= ");\n    const "@ + set);
    let head = "// Generated by GraalHax - GS2 Bytecode Injector for "@ + client_name(c) + "\n\n"@
        + "function create_tstring(e) {\n    const r = Memory.alloc(8);\n    const a = Memory.alloc(e.length + 8 + 10);\n    r.writePointer(a);\n    a.writeInt(e.length);\n    ptr(parseInt(a) + 4).writeInt(100);\n\n    for (let i = 0; i < e.length; i++) {\n        ptr(parseInt(a) + 8).add(i).writeU8(e.charCodeAt(i));\n    }\n    ptr(parseInt(a) + 8).add(e.length).writeU8(0);\n    return r;\n}\n\nconst hexToBytecode = (hex) => {\n    return hex.split(\" \").map(byte => String.fromCharCode(parseInt(byte, 16))).join(\"\");\n};\n\nasync function injectBytecode(variableName, bytecodeHex) {\n"@
        + "    var baseAddress = Process.findModuleByName(\""@ + client_module(c) + "\").base;\n"@
        + magic_check_text(c);
    let h1 = hex_chars(constructor_offset(c), true);
    let mid = "), 'void', ['pointer', 'pointer']"@ + thiscall_suffix(c);
    let h2 = hex_chars(setscript_offset(c), true);
    let tail = "), 'void', ['pointer', 'pointer']"@ + thiscall_suffix(c) + ");\n"@
        + "    console.log(\"Allocating variable memory...\");\n    const variable = Memory.alloc(0x1000);\n\n    console.log(\"Creating TGraalVar with name: \" + variableName);\n    TGraalVar_TGraalVar(variable, create_tstring(variableName));\n\n    console.log(\"Setting script bytecode (\" + bytecodeHex.length / 3 + \" bytes)...\");\n    TGraalVar_SetScript(variable, create_tstring(hexToBytecode(bytecodeHex)));\n\n    console.log(\"SCRIPT INJECTED successfully\");\n    return true;\n}\n\n// Auto-inject on script load\n"@
        + "injectBytecode('"@ + escape_js(name) + "', \""@ + hex + "\").catch(err => {\n"@
        + "    console.log(\"Injection error: \" + err);\n});\n"@;
    let script = injection_script(c, hex, name);
    assert(script =~= head + ctor_at + h1 + mid + set_at + h2 + tail);
    assert(script =~= (head + "    const "@) + ctor + h1 + (mid + set_at + h2 + tail));
    assert(script =~= (head + ctor_at + h1 + mid + ");\n    const "@) + set + h2 + tail);
}

/// Appends a name escaped for a single-quoted JavaScript string.
fn push_escaped(s: &mut String, name: &str)
    ensures
        final(s)@ == old(s)@ + escape_js(name@),
{
    let chars = crate::text::chars_of(name);
    let mut i: usize = 0;
    while i < chars.len()
        invariant
            i <= chars@.len(),
            chars@ == name@,
            s@ == old(s)@ + escape_js(chars@.take(i as int)),
        decreases chars@.len() - i,
    {
        let c = chars[i];
        let ghost before = s@;
        if c == '\\' {
            push_char(s, '\\');
            push_char(s, '\\');
        } else if c == '\'' {
            push_char(s, '\\');
            push_char(s, '\'');
        } else {
            push_char(s, c);
        }
        proof {
            assert(chars@.take(i + 1).drop_last() =~= chars@.take(i as int));
            assert(s@ =~= before + escape_js_char(c));
        }
        i = i + 1;
    }
    assert(chars@.take(i as int) =~= chars@);
}

impl FridaInjector {
    /// The client that the injector targets.
    pub closed spec fn client(&self) -> ClientType {
        self.client_type
    }

    /// Creates an injector for the given client.
    pub fn new(client_type: ClientType) -> (f: Self)
        ensures
            f.client() == client_type,
    {
        FridaInjector { client_type }
    }

    /// The Frida script that creates a script variable named `variable_name` in the client and
    /// gives it the bytecode written in hexadecimal as `bytecode_hex`.
    pub fn generate_injection_script(&self, bytecode_hex: &str, variable_name: &str) -> (s: String)
        ensures
            s@ == injection_script(self.client(), bytecode_hex@, variable_name@),
    {
        let c = self.client_type;
        let mut s = String::from_str("// Generated by GraalHax - GS2 Bytecode Injector for ");
        push_str(&mut s, c.name());
        push_str(&mut s, "\n\n");
        push_str(&mut s, "function create_tstring(e) {\n    const r = Memory.alloc(8);\n    const a = Memory.alloc(e.length + 8 + 10);\n    r.writePointer(a);\n    a.writeInt(e.length);\n    ptr(parseInt(a) + 4).writeInt(100);\n\n    for (let i = 0; i < e.length; i++) {\n        ptr(parseInt(a) + 8).add(i).writeU8(e.charCodeAt(i));\n    }\n    ptr(parseInt(a) + 8).add(e.length).writeU8(0);\n    return r;\n}\n\nconst hexToBytecode = (hex) => {\n    return hex.split(\" \").map(byte => String.fromCharCode(parseInt(byte, 16))).join(\"\");\n};\n\nasync function injectBytecode(variableName, bytecodeHex) {\n");
        push_str(&mut s, "    var baseAddress = Process.findModuleByName(\"");
        push_str(&mut s, c.target_module());
        push_str(&mut s, "\").base;\n");
        let ghost before_magic = s@;
        match (c.magic_check_offset(), c.magic_check_value()) {
            (Some(offset), Some(value)) => {
                push_str(&mut s, "// Wait for client initialization\n    var checkAddress = baseAddress.add(0x");
                push_hex(&mut s, offset as u64, true);
                push_str(&mut s, ");\n    while (checkAddress.readInt() !== ");
                push_dec(&mut s, value as u64);
                push_str(&mut s, ") {\n        await new Promise(resolve => setTimeout(resolve, 100));\n    }\n");
            },
            _ => {},
        }
        assert(s@ =~= before_magic + magic_check_text(c));
        push_str(&mut s, "    const TGraalVar_TGraalVar = new NativeFunction(\n        baseAddress.add(0x");
        push_hex(&mut s, c.tgralvar_constructor_offset() as u64, true);
        push_str(&mut s, "), 'void', ['pointer', 'pointer']");
        let ghost before_suffix = s@;
        if c.uses_thiscall() {
            push_str(&mut s, ", 'thiscall'");
        }
        assert(s@ =~= before_suffix + thiscall_suffix(c));
        push_str(&mut s, ");\n    const TGraalVar_SetScript = new NativeFunction(\n        baseAddress.add(0x");
        push_hex(&mut s, c.tgralvar_setscript_offset() as u64, true);
        push_str(&mut s, "), 'void', ['pointer', 'pointer']");
        let ghost before_suffix2 = s@;
        if c.uses_thiscall() {
            push_str(&mut s, ", 'thiscall'");
        }
        assert(s@ =~= before_suffix2 + thiscall_suffix(c));
        push_str(&mut s, ");\n");
        push_str(&mut s, "    console.log(\"Allocating variable memory...\");\n    const variable = Memory.alloc(0x1000);\n\n    console.log(\"Creating TGraalVar with name: \" + variableName);\n    TGraalVar_TGraalVar(variable, create_tstring(variableName));\n\n    console.log(\"Setting script bytecode (\" + bytecodeHex.length / 3 + \" bytes)...\");\n    TGraalVar_SetScript(variable, create_tstring(hexToBytecode(bytecodeHex)));\n\n    console.log(\"SCRIPT INJECTED successfully\");\n    return true;\n}\n\n// Auto-inject on script load\n");
        push_str(&mut s, "injectBytecode('");
        push_escaped(&mut s, variable_name);
        push_str(&mut s, "', \"");
        push_str(&mut s, bytecode_hex);
        push_str(&mut s, "\").catch(err => {\n");
        push_str(&mut s, "    console.log(\"Injection error: \" + err);\n});\n");
        s
    }
}

/// `pattern` occurs in `text`.
pub open spec fn occurs_in(text: Seq<char>, pattern: Seq<char>) -> bool {
    exists|i: int| 0 <= i <= text.len() - pattern.len() && #[trigger] text.subrange(i, i + pattern.len()) == pattern
}

/// Whether `pattern` occurs in `text` at position `i`.
fn occurs_at(text: &Vec<char>, pattern: &Vec<char>, i: usize) -> (b: bool)
    requires
        i + pattern@.len() <= text@.len(),
    ensures
        b == (text@.subrange(i as int, i + pattern@.len()) == pattern@),
{
    let n = text.len();
    let mut k: usize = 0;
    while k < pattern.len()
        invariant
            k <= pattern@.len(),
            n == text@.len(),
            i + pattern@.len() <= text@.len(),
            forall|j: int| 0 <= j < k ==> text@[i + j] == pattern@[j],
        decreases pattern@.len() - k,
    {
        if text[i + k] != pattern[k] {
            assert(text@.subrange(i as int, i + pattern@.len())[k as int] != pattern@[k as int]);
            return false;
        }
        k = k + 1;
    }
    assert(text@.subrange(i as int, i + pattern@.len()) =~= pattern@);
    true
}

impl FridaInjector {
    /// Whether a process listing names the client's module. A module name holds no line
    /// break, so it occurs in the listing exactly when it occurs in one of its lines; and it
    /// does not end with ".dll", so trimming that suffix leaves it unchanged.
    pub fn process_list_has_target(&self, listing: &str) -> (b: bool)
        ensures
            b == occurs_in(listing@, client_module(self.client())),
    {
        let text = crate::text::chars_of(listing);
        let target = crate::text::chars_of(self.client_type.target_module());
        if target.len() > text.len() {
            proof {
                assert forall|i: int| !(0 <= i <= text@.len() - target@.len() && #[trigger] text@.subrange(i, i + target@.len()) == target@) by {}
            }
            return false;
        }
        let last = text.len() - target.len();
        let mut i: usize = 0;
        loop
            invariant
                i <= last,
                last == text@.len() - target@.len(),
                text@ == listing@,
                target@ == client_module(self.client()),
                forall|j: int| 0 <= j < i ==> #[trigger] text@.subrange(j, j + target@.len()) != target@,
            decreases last - i,
        {
            if occurs_at(&text, &target, i) {
                return true;
            }
            if i == last {
                return false;
            }
            i = i + 1;
        }
    }

    /// The error when the client's process is not running.
    pub fn process_not_running(&self) -> (s: String)
        ensures
            s@ == "Target process "@ + client_module(self.client()) + " is not running"@,
    {
        let mut s = String::from_str("Target process ");
        push_str(&mut s, self.client_type.target_module());
        push_str(&mut s, " is not running");
        s
    }
}

/// What an injection reports, from the outcome of running Frida and what it printed.
pub fn injection_outcome(success: bool, stdout: &str, stderr: &str) -> (r: Result<String, String>)
    ensures
        success ==> (r matches Ok(s) && s@ == "Success: "@ + stdout@ + "\n"@ + stderr@),
        !success ==> (r matches Err(s) && s@ == "Injection failed: "@ + stderr@),
{
    if success {
        let mut s = String::from_str("Success: ");
        push_str(&mut s, stdout);
        push_str(&mut s, "\n");
        push_str(&mut s, stderr);
        Ok(s)
    } else {
        let mut s = String::from_str("Injection failed: ");
        push_str(&mut s, stderr);
        Err(s)
    }
}

/// A byte in two upper-case hexadecimal digits.
pub open spec fn hex_byte(b: u8) -> Seq<char> {
    zero_pad(hex_chars(b as nat, true), 2)
}

/// The bytes in upper-case hexadecimal, two digits each, separated by single spaces.
pub open spec fn hex_text(bytes: Seq<u8>) -> Seq<char>
    decreases bytes.len(),
{
    if bytes.len() == 0 {
        Seq::empty()
    } else if bytes.len() == 1 {
        hex_byte(bytes[0])
    } else {
        hex_text(bytes.drop_last()) + seq![' '] + hex_byte(bytes.last())
    }
}

/// Converts bytecode to a space-separated hexadecimal string.
pub fn bytecode_to_hex(bytecode: &[u8]) -> (s: String)
    ensures
        s@ == hex_text(bytecode@),
{
    let mut s = String::new();
    let mut i: usize = 0;
    while i < bytecode.len()
        invariant
            i <= bytecode@.len(),
            s@ == hex_text(bytecode@.take(i as int)),
        decreases bytecode@.len() - i,
    {
        let ghost before = s@;
        if i > 0 {
            push_char(&mut s, ' ');
        }
        push_hex_padded(&mut s, bytecode[i] as u64, true, 2);
        proof {
            let t = bytecode@.take(i + 1);
            assert(t.drop_last() =~= bytecode@.take(i as int));
            assert(t.last() == bytecode@[i as int]);
            if i == 0 {
                assert(s@ =~= hex_byte(bytecode@[0]));
            } else {
                assert(s@ =~= before + seq![' '] + hex_byte(bytecode@[i as int]));
            }
        }
        i = i + 1;
    }
    assert(bytecode@.take(i as int) =~= bytecode@);
    s
}

/// Unicode's White_Space characters.
pub open spec fn is_white_space(c: char) -> bool {
    let v = c as u32;
    ||| 0x09 <= v <= 0x0D
    ||| v == 0x20
    ||| v == 0x85
    ||| v == 0xA0
    ||| v == 0x1680
    ||| 0x2000 <= v <= 0x200A
    ||| v == 0x2028
    ||| v == 0x2029
    ||| v == 0x202F
    ||| v == 0x205F
    ||| v == 0x3000
}

/// Whether a character is one of Unicode's White_Space characters.
pub fn white_space(c: char) -> (b: bool)
    ensures
        b == is_white_space(c),
{
    let v = c as u32;
    (0x09 <= v && v <= 0x0D) || v == 0x20 || v == 0x85 || v == 0xA0 || v == 0x1680 || (0x2000 <= v
        && v <= 0x200A) || v == 0x2028 || v == 0x2029 || v == 0x202F || v == 0x205F || v == 0x3000
}

/// The words of `s` that follow the partial word `current`, after the words `done`: the
/// maximal runs of characters other than white space.
pub open spec fn words_from(s: Seq<char>, current: Seq<char>, done: Seq<Seq<char>>) -> Seq<Seq<char>>
    decreases s.len(),
{
    if s.len() == 0 {
        if current.len() > 0 { done.push(current) } else { done }
    } else if is_white_space(s[0]) {
        words_from(s.drop_first(), Seq::empty(), if current.len() > 0 { done.push(current) } else { done })
    } else {
        words_from(s.drop_first(), current.push(s[0]), done)
    }
}

/// The words of `s`: the maximal runs of characters other than white space, in order.
pub open spec fn words(s: Seq<char>) -> Seq<Seq<char>> {
    words_from(s, Seq::empty(), Seq::empty())
}

/// The words of a string slice.
pub fn split_whitespace(s: &str) -> (w: Vec<String>)
    ensures
        w@.map_values(|x: String| x@) == words(s@),
{
    let chars = crate::text::chars_of(s);
    let mut done: Vec<String> = Vec::new();
    let mut current = String::new();
    let mut i: usize = 0;
    proof {
        assert(chars@.skip(0) =~= chars@);
        assert(done@.map_values(|x: String| x@) =~= Seq::<Seq<char>>::empty());
    }
    while i < chars.len()
        invariant
            i <= chars@.len(),
            chars@ == s@,
            words(s@) == words_from(chars@.skip(i as int), current@, done@.map_values(|x: String| x@)),
        decreases chars@.len() - i,
    {
        let c = chars[i];
        proof {
            assert(chars@.skip(i as int).drop_first() =~= chars@.skip(i + 1));
            assert(chars@.skip(i as int)[0] == c);
        }
        if white_space(c) {
            if current.as_str().unicode_len() > 0 {
                let ghost before = done@;
                let word = current;
                done.push(word);
                current = String::new();
                proof {
                    assert(done@.map_values(|x: String| x@) =~= before.map_values(|x: String| x@).push(word@));
                }
            } else {
                current = String::new();
            }
        } else {
            push_char(&mut current, c);
        }
        i = i + 1;
    }
    proof {
        assert(chars@.skip(i as int) =~= Seq::<char>::empty());
    }
    if current.as_str().unicode_len() > 0 {
        let ghost before = done@;
        let word = current;
        done.push(word);
        proof {
            assert(done@.map_values(|x: String| x@) =~= before.map_values(|x: String| x@).push(word@));
        }
    }
    done
}

/// The value of a hexadecimal digit.
pub open spec fn hex_digit_value(c: char) -> Option<nat> {
    let v = c as u32;
    if 0x30 <= v <= 0x39 {
        Some((v - 0x30) as nat)
    } else if 0x61 <= v <= 0x66 {
        Some((v - 0x61 + 10) as nat)
    } else if 0x41 <= v <= 0x46 {
        Some((v - 0x41 + 10) as nat)
    } else {
        None
    }
}

/// The value of a run of hexadecimal digits.
pub open spec fn hex_digits_value(s: Seq<char>) -> Option<nat>
    decreases s.len(),
{
    if s.len() == 0 {
        Some(0)
    } else {
        match (hex_digits_value(s.drop_last()), hex_digit_value(s.last())) {
            (Some(a), Some(d)) => Some(a * 16 + d),
            _ => None,
        }
    }
}

/// The byte that a word denotes in hexadecimal: an optional '+', then at least one digit, the
/// value at most 255.
pub open spec fn hex_byte_value(s: Seq<char>) -> Option<u8> {
    let body = if s.len() > 0 && s[0] == '+' { s.drop_first() } else { s };
    if body.len() == 0 {
        None
    } else {
        match hex_digits_value(body) {
            Some(v) => if v <= 255 { Some(v as u8) } else { None },
            None => None,
        }
    }
}

/// The text of the error that parsing `s` as a hexadecimal byte reports.
pub uninterp spec fn hex_parse_error_text(s: Seq<char>) -> Seq<char>;

/// Parses a word as a hexadecimal byte.
///
/// Trusted: calls `u8::from_str_radix` with radix 16, documented to accept an optional `+`
/// followed by digits of the radix (either case) and to fail on anything else, an empty
/// string, or a value above 255; the contract states exactly that. The error's text, the
/// `Display` of `ParseIntError`, is only named by `hex_parse_error_text`.
#[verifier::external_body]
fn parse_hex_u8(s: &str) -> (r: Result<u8, String>)
    ensures
        match hex_byte_value(s@) {
            Some(v) => r == Ok::<u8, String>(v),
            None => r matches Err(m) && m@ == hex_parse_error_text(s@),
        },
{
    u8::from_str_radix(s, 16).map_err(|e| e.to_string())
}

/// The result of reading hexadecimal words: their bytes, or the error of the first word that
/// is not a byte.
pub open spec fn hex_words_value(w: Seq<Seq<char>>) -> Result<Seq<u8>, Seq<char>>
    decreases w.len(),
{
    if w.len() == 0 {
        Ok(Seq::empty())
    } else {
        match hex_words_value(w.drop_last()) {
            Err(e) => Err(e),
            Ok(b) => match hex_byte_value(w.last()) {
                Some(v) => Ok(b.push(v)),
                None => Err("Invalid hex: "@ + w.last() + " - "@ + hex_parse_error_text(w.last())),
            },
        }
    }
}

/// Converts a string of hexadecimal bytes separated by white space to bytecode.
pub fn hex_to_bytecode(hex: &str) -> (r: Result<Vec<u8>, String>)
    ensures
        match hex_words_value(words(hex@)) {
            Ok(b) => r matches Ok(v) && v@ == b,
            Err(e) => r matches Err(m) && m@ == e,
        },
{
    let w = split_whitespace(hex);
    let ghost ws = w@.map_values(|x: String| x@);
    let mut out: Vec<u8> = Vec::new();
    let mut i: usize = 0;
    while i < w.len()
        invariant
            i <= w@.len(),
            ws == w@.map_values(|x: String| x@),
            ws == words(hex@),
            hex_words_value(ws.take(i as int)) == Ok::<Seq<u8>, Seq<char>>(out@),
        decreases w@.len() - i,
    {
        proof {
            assert(ws.take(i + 1).drop_last() =~= ws.take(i as int));
            assert(ws.take(i + 1).last() == w@[i as int]@);
        }
        match parse_hex_u8(w[i].as_str()) {
            Ok(v) => out.push(v),
            Err(e) => {
                let mut m = String::from_str("Invalid hex: ");
                push_str(&mut m, w[i].as_str());
                push_str(&mut m, " - ");
                push_str(&mut m, e.as_str());
                proof {
                    let t = ws.take(i + 1);
                    assert(hex_byte_value(t.last()) is None);
                    assert(m@ =~= "Invalid hex: "@ + t.last() + " - "@ + hex_parse_error_text(t.last()));
                    assert(hex_words_value(t) == Err::<Seq<u8>, Seq<char>>(m@));
                    lemma_hex_words_error(ws, (i + 1) as nat);
                }
                return Err(m);
            },
        }
        i = i + 1;
    }
    assert(ws.take(i as int) =~= ws);
    Ok(out)
}

/// Once a prefix of the words fails, the words fail with the same error.
pub proof fn lemma_hex_words_error(w: Seq<Seq<char>>, k: nat)
    requires
        k <= w.len(),
        hex_words_value(w.take(k as int)) is Err,
    ensures
        hex_words_value(w) == hex_words_value(w.take(k as int)),
    decreases w.len() - k,
{
    if k < w.len() {
        assert(w.take(k as int + 1).drop_last() =~= w.take(k as int));
        lemma_hex_words_error(w, k + 1);
    } else {
        assert(w.take(k as int) =~= w);
    }
}

/// An upper-case hexadecimal digit reads back as its value.
pub proof fn lemma_digit_value(d: nat)
    requires
        d < 16,
    ensures
        hex_digit_value(crate::text::hex_digit_char(d, true)) == Some(d),
        crate::text::hex_digit_char(d, true) != '+',
{
    let c = crate::text::hex_digit_char(d, true);
    if d < 10 {
        assert(c as u32 == 48 + d);
    } else {
        assert(c as u32 == 55 + d);
    }
}

/// The digits of a byte in hexadecimal: two, neither of them white space, and they read back
/// as the byte.
pub proof fn lemma_hex_byte(v: u8)
    ensures
        hex_byte(v).len() == 2,
        !is_white_space(hex_byte(v)[0]),
        !is_white_space(hex_byte(v)[1]),
        hex_byte_value(hex_byte(v)) == Some(v),
{
    let hi = (v / 16) as nat;
    let lo = (v % 16) as nat;
    if v < 16 {
        assert(hex_chars(v as nat, true) =~= seq![crate::text::hex_digit_char(v as nat, true)]);
        assert(hex_byte(v) =~= seq!['0', crate::text::hex_digit_char(v as nat, true)]);
    } else {
        assert(hex_chars(hi, true) =~= seq![crate::text::hex_digit_char(hi, true)]);
        assert(hex_chars(v as nat, true) =~= seq![crate::text::hex_digit_char(hi, true), crate::text::hex_digit_char(lo, true)]);
        assert(hex_byte(v) =~= seq![crate::text::hex_digit_char(hi, true), crate::text::hex_digit_char(lo, true)]);
    }
    let h = hex_byte(v);
    lemma_digit_value(lo);
    lemma_digit_value(hi);
    assert(h.drop_last() =~= seq![h[0]]);
    assert(seq![h[0]].drop_last() =~= Seq::<char>::empty());
    assert(hex_digit_value('0') == Some(0nat));
    let one = seq![h[0]];
    assert(one.last() == h[0]);
    assert(hex_digits_value(one.drop_last()) == Some(0nat));
    assert(hex_digit_value(h[0]) == Some(hi));
    assert(hex_digits_value(one) == Some(hi));
    assert(hex_digits_value(h) == Some(hi * 16 + lo));
}

/// Reading characters without white space extends the current word.
pub proof fn lemma_words_through(t: Seq<char>, rest: Seq<char>, current: Seq<char>, done: Seq<Seq<char>>)
    requires
        forall|i: int| 0 <= i < t.len() ==> !is_white_space(#[trigger] t[i]),
    ensures
        words_from(t + rest, current, done) == words_from(rest, current + t, done),
    decreases t.len(),
{
    if t.len() == 0 {
        assert(t + rest =~= rest);
        assert(current + t =~= current);
    } else {
        assert((t + rest).drop_first() =~= t.drop_first() + rest);
        assert((t + rest)[0] == t[0]);
        lemma_words_through(t.drop_first(), rest, current.push(t[0]), done);
        assert(current.push(t[0]) + t.drop_first() =~= current + t);
    }
}

/// The words of a hexadecimal text followed by more characters: all bytes but the last are
/// words; the last is the word being read.
pub proof fn lemma_words_hex_text(b: Seq<u8>, s: Seq<char>, done: Seq<Seq<char>>)
    requires
        b.len() > 0,
    ensures
        words_from(hex_text(b) + s, Seq::empty(), done) == words_from(
            s,
            hex_byte(b.last()),
            done + b.drop_last().map_values(|v: u8| hex_byte(v)),
        ),
    decreases b.len(),
{
    lemma_hex_byte(b.last());
    let last = hex_byte(b.last());
    assert(forall|i: int| 0 <= i < last.len() ==> !is_white_space(#[trigger] last[i]));
    if b.len() == 1 {
        lemma_words_through(last, s, Seq::empty(), done);
        assert(Seq::<char>::empty() + last =~= last);
        assert(b.drop_last().map_values(|v: u8| hex_byte(v)) =~= Seq::<Seq<char>>::empty());
        assert(done + Seq::<Seq<char>>::empty() =~= done);
    } else {
        let p = b.drop_last();
        let s2 = seq![' '] + last + s;
        assert(hex_text(b) + s =~= hex_text(p) + s2);
        lemma_words_hex_text(p, s2, done);
        lemma_hex_byte(p.last());
        let d2 = done + p.drop_last().map_values(|v: u8| hex_byte(v));
        assert(s2.drop_first() =~= last + s);
        assert(is_white_space(s2[0]));
        assert(words_from(s2, hex_byte(p.last()), d2) == words_from(last + s, Seq::empty(), d2.push(hex_byte(p.last()))));
        lemma_words_through(last, s, Seq::empty(), d2.push(hex_byte(p.last())));
        assert(Seq::<char>::empty() + last =~= last);
        assert(d2.push(hex_byte(p.last())) =~= done + p.map_values(|v: u8| hex_byte(v)));
    }
}

/// The words of a hexadecimal text are the bytes' digits.
pub proof fn lemma_words_of_hex_text(b: Seq<u8>)
    ensures
        words(hex_text(b)) == b.map_values(|v: u8| hex_byte(v)),
{
    if b.len() == 0 {
        assert(b.map_values(|v: u8| hex_byte(v)) =~= Seq::<Seq<char>>::empty());
    } else {
        lemma_words_hex_text(b, Seq::empty(), Seq::empty());
        assert(hex_text(b) + Seq::<char>::empty() =~= hex_text(b));
        lemma_hex_byte(b.last());
        assert(Seq::<Seq<char>>::empty() + b.drop_last().map_values(|v: u8| hex_byte(v)) =~= b.drop_last().map_values(|v: u8| hex_byte(v)));
        assert(b.drop_last().map_values(|v: u8| hex_byte(v)).push(hex_byte(b.last())) =~= b.map_values(|v: u8| hex_byte(v)));
    }
}

/// The bytes' digits read back as the bytes.
pub proof fn lemma_hex_words_of_bytes(b: Seq<u8>)
    ensures
        hex_words_value(b.map_values(|v: u8| hex_byte(v))) == Ok::<Seq<u8>, Seq<char>>(b),
    decreases b.len(),
{
    let w = b.map_values(|v: u8| hex_byte(v));
    if b.len() > 0 {
        lemma_hex_words_of_bytes(b.drop_last());
        assert(w.drop_last() =~= b.drop_last().map_values(|v: u8| hex_byte(v)));
        lemma_hex_byte(b.last());
        assert(b.drop_last().push(b.last()) =~= b);
    } else {
        assert(b =~= Seq::<u8>::empty());
    }
}

/// Reading back the hexadecimal text of any bytecode gives the bytecode.
pub proof fn law_hex_roundtrip(b: Seq<u8>)
    ensures
        hex_words_value(words(hex_text(b))) == Ok::<Seq<u8>, Seq<char>>(b),
{
    lemma_words_of_hex_text(b);
    lemma_hex_words_of_bytes(b);
}

} // verus!
