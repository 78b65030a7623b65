use vstd::prelude::*;

use std::collections::BTreeSet;

use petgraph::graph::DiGraph;

use crate::graal_io::{be_u16, be_u32, first_zero, lemma_first_zero_bound, remaining, advanced, GraalIoError, GraalReader, IoErrorKind};
use crate::graph::{graph_add_edge, graph_add_node, graph_dfs, graph_edges, graph_new, graph_node_count, reachable};
use crate::instruction::{Instruction, InstructionView};
use crate::opcode::{opcode_of_byte, spec_connects_to_next_block, spec_has_jump_target, spec_is_block_end, Opcode, OpcodeError};
use crate::operand::{Operand, OperandError, OperandErrorView, OperandView};
use crate::text::latin1_chars;
use vstd::std_specs::iter::IteratorSpec;
use crate::utils::Gs2BytecodeAddress;

verus! {

/// Represents a section type in a module.
#[derive(Debug, PartialEq, Eq, Clone, Copy, Structural)]
pub enum SectionType {
    /// The section contains flags for the module.
    Gs1Flags,
    /// The section contains the module's functions.
    Functions,
    /// The section contains the module's strings.
    Strings,
    /// The section contains the module's instructions.
    Instructions,
}

/// The name of a section type.
pub open spec fn section_type_name(t: SectionType) -> Seq<char> {
    match t {
        SectionType::Gs1Flags => "Gs1Flags"@,
        SectionType::Functions => "Functions"@,
        SectionType::Strings => "Strings"@,
        SectionType::Instructions => "Instructions"@,
    }
}

/// The section type that a section's tag stands for.
pub open spec fn section_type_of(tag: u32) -> Option<SectionType> {
    if tag == 1 {
        Some(SectionType::Gs1Flags)
    } else if tag == 2 {
        Some(SectionType::Functions)
    } else if tag == 3 {
        Some(SectionType::Strings)
    } else if tag == 4 {
        Some(SectionType::Instructions)
    } else {
        None
    }
}

impl SectionType {
    /// The name of the section type.
    pub fn to_string(&self) -> (s: String)
        ensures
            s@ == section_type_name(*self),
    {
        match self {
            SectionType::Gs1Flags => String::from_str("Gs1Flags"),
            SectionType::Functions => String::from_str("Functions"),
            SectionType::Strings => String::from_str("Strings"),
            SectionType::Instructions => String::from_str("Instructions"),
        }
    }
}

/// Error type for bytecode operations.
#[derive(Debug, Clone, PartialEq, Eq)]
pub enum BytecodeLoaderError {
    /// An invalid section type was encountered.
    InvalidSectionType(u32),
    /// A section's length does not match its contents: the section, then the length found.
    InvalidSectionLength(SectionType, u32),
    /// A string index is out of bounds: the index, then the number of strings.
    StringIndexOutOfBounds(usize, usize),
    /// An operand came before any instruction.
    NoPreviousInstruction,
    /// The block starting at this address is reachable from no function.
    UnreachableBlock(Gs2BytecodeAddress),
    /// Reading the bytes failed.
    GraalIo(GraalIoError),
    /// An invalid opcode was encountered.
    OpcodeError(OpcodeError),
    /// An invalid operand was encountered.
    InvalidOperand(OperandError),
}

/// The abstract value of a loader error.
pub enum LoaderErrorView {
    /// An invalid section type was encountered.
    InvalidSectionType(u32),
    /// A section's length does not match its contents.
    InvalidSectionLength(SectionType, u32),
    /// A string index is out of bounds.
    StringIndexOutOfBounds(usize, usize),
    /// An operand came before any instruction.
    NoPreviousInstruction,
    /// The block is reachable from no function.
    UnreachableBlock(Gs2BytecodeAddress),
    /// Reading the bytes failed.
    GraalIo(GraalIoError),
    /// An invalid opcode was encountered.
    OpcodeError(OpcodeError),
    /// An invalid operand was encountered.
    InvalidOperand(OperandErrorView),
}

impl View for BytecodeLoaderError {
    type V = LoaderErrorView;

    open spec fn view(&self) -> LoaderErrorView {
        match self {
            BytecodeLoaderError::InvalidSectionType(t) => LoaderErrorView::InvalidSectionType(*t),
            BytecodeLoaderError::InvalidSectionLength(t, n) => LoaderErrorView::InvalidSectionLength(*t, *n),
            BytecodeLoaderError::StringIndexOutOfBounds(i, n) => LoaderErrorView::StringIndexOutOfBounds(*i, *n),
            BytecodeLoaderError::NoPreviousInstruction => LoaderErrorView::NoPreviousInstruction,
            BytecodeLoaderError::UnreachableBlock(a) => LoaderErrorView::UnreachableBlock(*a),
            BytecodeLoaderError::GraalIo(e) => LoaderErrorView::GraalIo(*e),
            BytecodeLoaderError::OpcodeError(e) => LoaderErrorView::OpcodeError(*e),
            BytecodeLoaderError::InvalidOperand(e) => LoaderErrorView::InvalidOperand(e@),
        }
    }
}

/// The abstract entries of a function map: each name (none for the entry point) with its
/// address, in the order the names were first inserted.
pub type FunctionEntries = Seq<(Option<Seq<char>>, Gs2BytecodeAddress)>;

/// The position of the entry for `key`, looking from the back.
pub open spec fn key_index(entries: FunctionEntries, key: Option<Seq<char>>) -> Option<nat>
    decreases entries.len(),
{
    if entries.len() == 0 {
        None
    } else if entries.last().0 == key {
        Some((entries.len() - 1) as nat)
    } else {
        key_index(entries.drop_last(), key)
    }
}

/// The entries after inserting `key` with `value`: an existing entry for the key takes the new
/// value in place; otherwise the entry goes at the end.
pub open spec fn entries_insert(entries: FunctionEntries, key: Option<Seq<char>>, value: Gs2BytecodeAddress) -> FunctionEntries {
    match key_index(entries, key) {
        Some(i) => entries.update(i as int, (key, value)),
        None => entries.push((key, value)),
    }
}

/// The value stored for `key`.
pub open spec fn entries_get(entries: FunctionEntries, key: Option<Seq<char>>) -> Option<Gs2BytecodeAddress> {
    match key_index(entries, key) {
        Some(i) => Some(entries[i as int].1),
        None => None,
    }
}

/// No key occurs twice.
pub open spec fn keys_distinct(entries: FunctionEntries) -> bool {
    forall|i: int, j: int| 0 <= i < j < entries.len() ==> #[trigger] entries[i].0 != #[trigger] entries[j].0
}

/// The abstract value of an optional name.
pub open spec fn name_view(n: Option<String>) -> Option<Seq<char>> {
    match n {
        Some(s) => Some(s@),
        None => None,
    }
}

/// A map from function names (none for the entry point) to their addresses, which keeps its
/// entries in the order the names were first inserted.
pub struct FunctionMap {
    entries: Vec<(Option<String>, Gs2BytecodeAddress)>,
}

impl View for FunctionMap {
    type V = FunctionEntries;

    closed spec fn view(&self) -> FunctionEntries {
        self.entries@.map_values(|e: (Option<String>, Gs2BytecodeAddress)| (name_view(e.0), e.1))
    }
}

/// Whether two optional names are equal.
fn same_name(a: &Option<String>, b: &Option<String>) -> (r: bool)
    ensures
        r == (name_view(*a) == name_view(*b)),
{
    match (a, b) {
        (None, None) => true,
        (Some(x), Some(y)) => *x == *y,
        _ => false,
    }
}

impl FunctionMap {
    #[verifier::type_invariant]
    spec fn inv(self) -> bool {
        keys_distinct(self@)
    }

    /// Creates an empty map.
    pub fn new() -> (m: Self)
        ensures
            m@ == Seq::<(Option<Seq<char>>, Gs2BytecodeAddress)>::empty(),
    {
        let m = FunctionMap { entries: Vec::new() };
        assert(m@ =~= Seq::<(Option<Seq<char>>, Gs2BytecodeAddress)>::empty());
        m
    }

    /// The number of entries.
    pub fn len(&self) -> (n: usize)
        ensures
            n == self@.len(),
    {
        self.entries.len()
    }

    fn position(&self, key: &Option<String>) -> (r: Option<usize>)
        ensures
            match key_index(self@, name_view(*key)) {
                Some(i) => r is Some && r.unwrap() == i,
                None => r is None,
            },
    {
        let ghost v = self@;
        let mut i: usize = self.entries.len();
        assert(v.take(i as int) =~= v);
        while i > 0
            invariant
                v == self@,
                i <= self.entries@.len(),
                key_index(v, name_view(*key)) == key_index(v.take(i as int), name_view(*key)),
            decreases i,
        {
            proof {
                assert(v.take(i as int).drop_last() =~= v.take(i - 1));
            }
            if same_name(&self.entries[i - 1].0, key) {
                return Some(i - 1);
            }
            i = i - 1;
        }
        None
    }

    /// The address stored for `key`.
    pub fn get(&self, key: &Option<String>) -> (r: Option<&Gs2BytecodeAddress>)
        ensures
            match entries_get(self@, name_view(*key)) {
                Some(v) => r == Some(&v),
                None => r is None,
            },
    {
        proof {
            lemma_key_index(self@, name_view(*key));
            assert(self@.len() == self.entries@.len());
        }
        match self.position(key) {
            Some(i) => {
                assert(self@[i as int].1 == self.entries@[i as int].1);
                Some(&self.entries[i].1)
            },
            None => None,
        }
    }

    /// Stores `value` for `key`, in place of an earlier value.
    pub fn insert(&mut self, key: Option<String>, value: Gs2BytecodeAddress)
        ensures
            final(self)@ == entries_insert(old(self)@, name_view(key), value),
    {
        proof {
            use_type_invariant(&*self);
            lemma_key_index(self@, name_view(key));
        }
        let ghost k = name_view(key);
        match self.position(&key) {
            Some(i) => {
                let mut entries: Vec<(Option<String>, Gs2BytecodeAddress)> = Vec::new();
                std::mem::swap(&mut entries, &mut self.entries);
                entries.set(i, (key, value));
                proof {
                    let w = entries@.map_values(|e: (Option<String>, Gs2BytecodeAddress)| (name_view(e.0), e.1));
                    assert(w =~= old(self)@.update(i as int, (k, value)));
                    assert forall|a: int, b: int| 0 <= a < b < w.len() implies #[trigger] w[a].0 != #[trigger] w[b].0 by {
                        assert(old(self)@[a].0 != old(self)@[b].0);
                    }
                }
                self.entries = entries;
            },
            None => {
                let mut entries: Vec<(Option<String>, Gs2BytecodeAddress)> = Vec::new();
                std::mem::swap(&mut entries, &mut self.entries);
                entries.push((key, value));
                proof {
                    let w = entries@.map_values(|e: (Option<String>, Gs2BytecodeAddress)| (name_view(e.0), e.1));
                    assert(w =~= old(self)@.push((k, value)));
                    assert forall|a: int, b: int| 0 <= a < b < w.len() implies #[trigger] w[a].0 != #[trigger] w[b].0 by {
                        if b == w.len() - 1 {
                            assert(old(self)@.contains(w[a]));
                        }
                    }
                }
                self.entries = entries;
            },
        }
    }

    /// The name and address of entry `i`, in insertion order.
    pub fn entry(&self, i: usize) -> (r: (&Option<String>, Gs2BytecodeAddress))
        requires
            i < self@.len(),
        ensures
            name_view(*r.0) == self@[i as int].0,
            r.1 == self@[i as int].1,
    {
        let e = &self.entries[i];
        (&e.0, e.1)
    }
}

/// What `key_index` gives: the index of an entry with the key, and one exactly when some entry
/// has the key.
pub proof fn lemma_key_index(entries: FunctionEntries, key: Option<Seq<char>>)
    ensures
        key_index(entries, key) is Some <==> exists|i: int| 0 <= i < entries.len() && #[trigger] entries[i].0 == key,
        key_index(entries, key) matches Some(i) ==> i < entries.len() && entries[i as int].0 == key,
    decreases entries.len(),
{
    if entries.len() > 0 {
        lemma_key_index(entries.drop_last(), key);
        if entries.last().0 != key {
            if exists|i: int| 0 <= i < entries.len() && #[trigger] entries[i].0 == key {
                let i = choose|i: int| 0 <= i < entries.len() && #[trigger] entries[i].0 == key;
                assert(entries.drop_last()[i].0 == key);
            }
            if exists|i: int| 0 <= i < entries.drop_last().len() && #[trigger] entries.drop_last()[i].0 == key {
                let i = choose|i: int| 0 <= i < entries.drop_last().len() && #[trigger] entries.drop_last()[i].0 == key;
                assert(entries[i].0 == key);
            }
        } else {
            assert(entries[entries.len() - 1].0 == key);
        }
    }
}

/// The reading position over the module's bytes: the bytes, and the position of the next byte.
pub type Input = (Seq<u8>, nat);

/// The state of a module while its sections are read.
pub struct LoadState {
    /// The bytes and the reading position.
    pub input: Input,
    /// The functions found so far.
    pub functions: FunctionEntries,
    /// The strings found so far.
    pub strings: Seq<Seq<char>>,
    /// The instructions found so far.
    pub instructions: Seq<InstructionView>,
    /// The addresses where blocks start.
    pub breaks: Set<Gs2BytecodeAddress>,
}

/// The error of reading past the end of the bytes.
pub open spec fn eof() -> LoaderErrorView {
    LoaderErrorView::GraalIo(GraalIoError::Io(IoErrorKind::UnexpectedEof))
}

/// Reads a byte.
pub open spec fn take_u8(r: Input) -> Result<(u8, Input), LoaderErrorView> {
    if r.1 + 1 <= r.0.len() {
        Ok((r.0[r.1 as int], advanced(r, 1)))
    } else {
        Err(eof())
    }
}

/// Reads a big-endian 16-bit value.
pub open spec fn take_u16(r: Input) -> Result<(u16, Input), LoaderErrorView> {
    if r.1 + 2 <= r.0.len() {
        Ok((be_u16(r.0[r.1 as int], r.0[r.1 as int + 1]), advanced(r, 2)))
    } else {
        Err(eof())
    }
}

/// Reads a big-endian 32-bit value.
pub open spec fn take_u32(r: Input) -> Result<(u32, Input), LoaderErrorView> {
    if r.1 + 4 <= r.0.len() {
        Ok((be_u32(r.0[r.1 as int], r.0[r.1 as int + 1], r.0[r.1 as int + 2], r.0[r.1 as int + 3]), advanced(r, 4)))
    } else {
        Err(eof())
    }
}

/// Reads the bytes up to the next zero byte, and skips that byte.
pub open spec fn take_string(r: Input) -> Result<(Seq<u8>, Input), LoaderErrorView> {
    match first_zero(remaining(r)) {
        Some(k) => Ok((remaining(r).take(k as int), advanced(r, k + 1))),
        None => Err(LoaderErrorView::GraalIo(GraalIoError::NoNullTerminator())),
    }
}

/// The flags section: its length, which must be 4, then the flags, which are ignored.
pub open spec fn gs1_flags_section(st: LoadState) -> Result<LoadState, LoaderErrorView> {
    match take_u32(st.input) {
        Err(e) => Err(e),
        Ok((len, r1)) => match take_u32(r1) {
            Err(e) => Err(e),
            Ok((_flags, r2)) => if len != 4 {
                Err(LoaderErrorView::InvalidSectionLength(SectionType::Gs1Flags, len))
            } else {
                Ok(LoadState { input: r2, ..st })
            },
        },
    }
}

/// The measure that bounds the entries left in a section of length `len` once `read` bytes
/// are counted.
pub open spec fn left(len: u32, read: nat) -> nat {
    if read < len { (len - read) as nat } else { 0 }
}

/// The entries of the functions section: each a 32-bit address and a name; every address
/// starts a block. The count grows by 4, the number of bytes of the name, and 1.
pub open spec fn function_entries(st: LoadState, len: u32, read: nat) -> Result<(LoadState, nat), LoaderErrorView>
    decreases left(len, read),
{
    if read >= len {
        Ok((st, read))
    } else {
        match take_u32(st.input) {
            Err(e) => Err(e),
            Ok((loc, r1)) => match take_string(r1) {
                Err(e) => Err(e),
                Ok((name, r2)) => function_entries(
                    LoadState {
                        input: r2,
                        functions: entries_insert(st.functions, Some(latin1_chars(name)), loc as usize),
                        breaks: st.breaks.insert(loc as usize),
                        ..st
                    },
                    len,
                    read + 5 + name.len(),
                ),
            },
        }
    }
}

/// A section's result once its entries are read: the count of bytes must equal the
/// section's length.
pub open spec fn close_section(res: Result<(LoadState, nat), LoaderErrorView>, len: u32, t: SectionType) -> Result<LoadState, LoaderErrorView> {
    match res {
        Err(e) => Err(e),
        Ok((st, read)) => if read != len {
            Err(LoaderErrorView::InvalidSectionLength(t, read as u32))
        } else {
            Ok(st)
        },
    }
}

/// The functions section: its length, then its entries, after the entry point is recorded
/// at address 0.
pub open spec fn functions_section(st: LoadState) -> Result<LoadState, LoaderErrorView> {
    match take_u32(st.input) {
        Err(e) => Err(e),
        Ok((len, r1)) => {
            let st1 = LoadState { input: r1, functions: entries_insert(st.functions, None, 0), ..st };
            close_section(function_entries(st1, len, 0), len, SectionType::Functions)
        },
    }
}

/// The entries of the strings section: null-terminated strings, each counted with its
/// terminator.
pub open spec fn string_entries(st: LoadState, len: u32, read: nat) -> Result<(LoadState, nat), LoaderErrorView>
    decreases left(len, read),
{
    if read >= len {
        Ok((st, read))
    } else {
        match take_string(st.input) {
            Err(e) => Err(e),
            Ok((b, r1)) => string_entries(
                LoadState { input: r1, strings: st.strings.push(latin1_chars(b)), ..st },
                len,
                read + b.len() + 1,
            ),
        }
    }
}

/// The strings section: its length, then its entries.
pub open spec fn strings_section(st: LoadState) -> Result<LoadState, LoaderErrorView> {
    match take_u32(st.input) {
        Err(e) => Err(e),
        Ok((len, r1)) => close_section(string_entries(LoadState { input: r1, ..st }, len, 0), len, SectionType::Strings),
    }
}

/// The string at `index`, as an operand.
pub open spec fn string_operand(strings: Seq<Seq<char>>, index: nat, width: nat, r: Input) -> Result<(Option<(OperandView, nat)>, Input), LoaderErrorView> {
    if index < strings.len() {
        Ok((Some((OperandView::String(strings[index as int]), width)), r))
    } else {
        Err(LoaderErrorView::StringIndexOutOfBounds(index as usize, strings.len() as usize))
    }
}

/// The operand that an opcode reads, with the number of bytes it counts, if the opcode is one
/// of the immediate opcodes.
pub open spec fn read_operand(op: Opcode, r: Input, strings: Seq<Seq<char>>) -> Result<(Option<(OperandView, nat)>, Input), LoaderErrorView> {
    match op {
        Opcode::ImmStringByte => match take_u8(r) {
            Err(e) => Err(e),
            Ok((i, r1)) => string_operand(strings, i as nat, 1, r1),
        },
        Opcode::ImmStringShort => match take_u16(r) {
            Err(e) => Err(e),
            Ok((i, r1)) => string_operand(strings, i as nat, 2, r1),
        },
        Opcode::ImmStringInt => match take_u32(r) {
            Err(e) => Err(e),
            Ok((i, r1)) => string_operand(strings, i as nat, 4, r1),
        },
        Opcode::ImmByte => match take_u8(r) {
            Err(e) => Err(e),
            Ok((v, r1)) => Ok((Some((OperandView::Number(v as i8 as i32), 1)), r1)),
        },
        Opcode::ImmShort => match take_u16(r) {
            Err(e) => Err(e),
            Ok((v, r1)) => Ok((Some((OperandView::Number(v as i16 as i32), 2)), r1)),
        },
        Opcode::ImmInt => match take_u32(r) {
            Err(e) => Err(e),
            Ok((v, r1)) => Ok((Some((OperandView::Number(v as i32), 4)), r1)),
        },
        Opcode::ImmFloat => match take_string(r) {
            Err(e) => Err(e),
            Ok((b, r1)) => Ok((Some((OperandView::Float(latin1_chars(b)), b.len() + 1)), r1)),
        },
        _ => Ok((None, r)),
    }
}

/// Immediate number operands are signed, in two's complement: a byte, a big-endian 16-bit
/// or a big-endian 32-bit value at or above half its range stands for that value less the
/// full range (so the byte 0xFF is -1); each counts its own width in bytes.
pub proof fn law_immediate_numbers_are_signed(r: Input, strings: Seq<Seq<char>>)
    ensures
        r.1 + 1 <= r.0.len() ==> {
            let b = r.0[r.1 as int] as int;
            read_operand(Opcode::ImmByte, r, strings) matches Ok((Some((OperandView::Number(v), n)), r1)) && n == 1 && v as int
                == (if b < 128 { b } else { b - 256 }) && r1 == advanced(r, 1)
        },
        r.1 + 2 <= r.0.len() ==> {
            let u = r.0[r.1 as int] * 256 + r.0[r.1 as int + 1];
            read_operand(Opcode::ImmShort, r, strings) matches Ok((Some((OperandView::Number(v), n)), r1)) && n == 2 && v as int
                == (if u < 0x8000 { u } else { u - 0x10000 }) && r1 == advanced(r, 2)
        },
        r.1 + 4 <= r.0.len() ==> {
            let u = r.0[r.1 as int] * 0x1000000 + r.0[r.1 as int + 1] * 0x10000 + r.0[r.1 as int + 2] * 0x100
                + r.0[r.1 as int + 3];
            read_operand(Opcode::ImmInt, r, strings) matches Ok((Some((OperandView::Number(v), n)), r1)) && n == 4 && v as int
                == (if u < 0x80000000 { u } else { u - 0x100000000 }) && r1 == advanced(r, 4)
        },
{
    if r.1 + 1 <= r.0.len() {
        let b: u8 = r.0[r.1 as int];
        assert(b < 128 ==> (b as i8 as i32) as int == b as int) by (bit_vector);
        assert(b >= 128 ==> (b as i8 as i32) as int == b as int - 256) by (bit_vector);
    }
    if r.1 + 2 <= r.0.len() {
        let x: u8 = r.0[r.1 as int];
        let y: u8 = r.0[r.1 as int + 1];
        let w: u16 = be_u16(x, y);
        assert(w as int == x * 256 + y) by (bit_vector)
            requires
                w == ((x * 256 + y) as u16),
        ;
        assert(w < 0x8000 ==> (w as i16 as i32) as int == w as int) by (bit_vector);
        assert(w >= 0x8000 ==> (w as i16 as i32) as int == w as int - 0x10000) by (bit_vector);
    }
    if r.1 + 4 <= r.0.len() {
        let x: u8 = r.0[r.1 as int];
        let y: u8 = r.0[r.1 as int + 1];
        let z: u8 = r.0[r.1 as int + 2];
        let t: u8 = r.0[r.1 as int + 3];
        let w: u32 = be_u32(x, y, z, t);
        assert(w as int == x * 0x1000000 + y * 0x10000 + z * 0x100 + t) by (bit_vector)
            requires
                w == ((x * 0x1000000 + y * 0x10000 + z * 0x100 + t) as u32),
        ;
        assert(w < 0x80000000 ==> (w as i32) as int == w as int) by (bit_vector);
        assert(w >= 0x80000000 ==> (w as i32) as int == w as int - 0x100000000) by (bit_vector);
    }
}

/// The error for a jump whose operand is not a number.
pub open spec fn not_a_number() -> LoaderErrorView {
    LoaderErrorView::InvalidOperand(OperandErrorView::InvalidConversion("String/Float"@, "Number"@))
}

/// One entry of the instructions section, with the number of bytes it counts besides its
/// opcode. An immediate opcode gives the last instruction its operand (a number operand of a
/// jump also starts a block at its target); another opcode adds an instruction at the next
/// address (after a block end, a block starts at the address that follows).
pub open spec fn instruction_entry(st: LoadState) -> Result<(LoadState, nat), LoaderErrorView> {
    match take_u8(st.input) {
        Err(e) => Err(e),
        Ok((b, r1)) => match opcode_of_byte(b) {
            None => Err(LoaderErrorView::OpcodeError(OpcodeError::InvalidOpcode(b))),
            Some(op) => match read_operand(op, r1, st.strings) {
                Err(e) => Err(e),
                Ok((Some((operand, n)), r2)) => if st.instructions.len() == 0 {
                    Err(LoaderErrorView::NoPreviousInstruction)
                } else {
                    let last = st.instructions.last();
                    let instructions = st.instructions.update(
                        st.instructions.len() - 1,
                        InstructionView { operand: Some(operand), ..last },
                    );
                    if spec_has_jump_target(last.opcode) {
                        match operand {
                            OperandView::Number(v) => Ok((
                                LoadState { input: r2, instructions, breaks: st.breaks.insert(v as usize), ..st },
                                n,
                            )),
                            _ => Err(not_a_number()),
                        }
                    } else {
                        Ok((LoadState { input: r2, instructions, ..st }, n))
                    }
                },
                Ok((None, r2)) => {
                    let a = st.instructions.len();
                    let instructions = st.instructions.push(InstructionView { opcode: op, address: a as usize, operand: None });
                    let breaks = if spec_is_block_end(op) { st.breaks.insert((a + 1) as usize) } else { st.breaks };
                    Ok((LoadState { input: r2, instructions, breaks, ..st }, 0))
                },
            },
        },
    }
}

/// The entries of the instructions section.
pub open spec fn instruction_entries(st: LoadState, len: u32, read: nat) -> Result<(LoadState, nat), LoaderErrorView>
    decreases left(len, read),
{
    if read >= len {
        Ok((st, read))
    } else {
        match instruction_entry(st) {
            Err(e) => Err(e),
            Ok((st2, n)) => instruction_entries(st2, len, read + 1 + n),
        }
    }
}

/// The smallest block start past the last instruction.
#[verifier::opaque]
pub open spec fn least_above(breaks: Set<Gs2BytecodeAddress>, count: nat) -> Gs2BytecodeAddress {
    choose|b: Gs2BytecodeAddress| breaks.contains(b) && b > count && forall|x: Gs2BytecodeAddress|
        breaks.contains(x) && x > count ==> b <= x
}

/// The check that ends the instructions section: without instructions there are no blocks;
/// a block may start at the end of the instructions but not past it.
pub open spec fn check_breaks(st: LoadState) -> Result<LoadState, LoaderErrorView> {
    if break_above(kept_breaks(st), st.instructions.len()) {
        Err(LoaderErrorView::InvalidOperand(OperandErrorView::InvalidJumpTarget(least_above(kept_breaks(st), st.instructions.len()))))
    } else {
        Ok(LoadState { breaks: kept_breaks(st), ..st })
    }
}

/// The block starts that remain at the end of the instructions section: none without
/// instructions.
pub open spec fn kept_breaks(st: LoadState) -> Set<Gs2BytecodeAddress> {
    if st.instructions.len() == 0 {
        Set::empty()
    } else {
        st.breaks
    }
}

/// Some block starts past the last instruction.
pub open spec fn break_above(breaks: Set<Gs2BytecodeAddress>, count: nat) -> bool {
    exists|b: Gs2BytecodeAddress| breaks.contains(b) && b > count
}

/// The instructions section: a block starts at address 0; then the section's length, its
/// entries, and the check of the block starts.
pub open spec fn instructions_section(st: LoadState) -> Result<LoadState, LoaderErrorView> {
    let st0 = LoadState { breaks: st.breaks.insert(0), ..st };
    match take_u32(st0.input) {
        Err(e) => Err(e),
        Ok((len, r1)) => match close_section(
            instruction_entries(LoadState { input: r1, ..st0 }, len, 0),
            len,
            SectionType::Instructions,
        ) {
            Err(e) => Err(e),
            Ok(st2) => check_breaks(st2),
        },
    }
}

/// One section: a 32-bit tag (1 to 4) naming its type, then its contents.
pub open spec fn section(st: LoadState) -> Result<LoadState, LoaderErrorView> {
    match take_u32(st.input) {
        Err(e) => Err(e),
        Ok((tag, r1)) => {
            let st1 = LoadState { input: r1, ..st };
            match section_type_of(tag) {
                None => Err(LoaderErrorView::InvalidSectionType(tag)),
                Some(SectionType::Gs1Flags) => gs1_flags_section(st1),
                Some(SectionType::Functions) => functions_section(st1),
                Some(SectionType::Strings) => strings_section(st1),
                Some(SectionType::Instructions) => instructions_section(st1),
            }
        },
    }
}

/// `k` sections in a row.
pub open spec fn sections(st: LoadState, k: nat) -> Result<LoadState, LoaderErrorView>
    decreases k,
{
    if k == 0 {
        Ok(st)
    } else {
        match section(st) {
            Err(e) => Err(e),
            Ok(st2) => sections(st2, (k - 1) as nat),
        }
    }
}

/// A module: four sections, read from the start of `bytes`.
pub open spec fn parse_module(bytes: Seq<u8>) -> Result<LoadState, LoaderErrorView> {
    sections(
        LoadState {
            input: (bytes, 0),
            functions: Seq::empty(),
            strings: Seq::empty(),
            instructions: Seq::empty(),
            breaks: Set::empty(),
        },
        4,
    )
}

/// Every instruction with a jump target has an operand.
pub open spec fn jumps_have_operands(instructions: Seq<InstructionView>) -> bool {
    forall|i: int| 0 <= i < instructions.len() && spec_has_jump_target(#[trigger] instructions[i].opcode)
        ==> instructions[i].operand is Some
}

/// Strictly increasing.
pub open spec fn increasing(s: Seq<Gs2BytecodeAddress>) -> bool {
    forall|i: int, j: int| 0 <= i < j < s.len() ==> #[trigger] s[i] < #[trigger] s[j]
}

/// The addresses of a set, in increasing order.
fn ordered_addresses(set: &BTreeSet<Gs2BytecodeAddress>) -> (v: Vec<Gs2BytecodeAddress>)
    ensures
        v@.to_set() == set@,
        increasing(v@),
{
    broadcast use vstd::std_specs::btree::group_btree_axioms;
    broadcast use vstd::laws_cmp::group_laws_cmp;

    let mut v: Vec<Gs2BytecodeAddress> = Vec::new();
    let ghost all = IteratorSpec::remaining(&set.iter());
    for x in it: set.iter()
        invariant
            it.seq() == all,
            v@ =~= all.take(it.index()).map_values(|a: &Gs2BytecodeAddress| *a),
    {
        v.push(*x);
    }
    proof {
        assert(v@ =~= all.map_values(|a: &Gs2BytecodeAddress| *a));
        assert(v@ =~= all.unref());
        assert(all.unref().to_set() == set@);
        assert forall|i: int, j: int| 0 <= i < j < v@.len() implies #[trigger] v@[i] < #[trigger] v@[j] by {
            assert(vstd::std_specs::cmp::OrdSpec::cmp_spec(&all[i], &all[j]) is Less);
        }
    }
    v
}

/// The largest module, in bytes, that the loader reads. Each byte holds at most one
/// instruction, and the control-flow graph gets up to two edges per instruction; petgraph's
/// graphs use `u32` indices and panic once `u32::MAX` edges are reached, so the module must
/// stay below half of that.
pub const MAX_MODULE_LEN: usize = 0x7fff_ffff;


/// Checks that a section's count of bytes equals its length.
fn expect_section_length(expected_length: u32, got_length: u32, section_type: SectionType) -> (r: Result<(), BytecodeLoaderError>)
    ensures
        expected_length == got_length ==> r is Ok,
        expected_length != got_length ==> r == Err::<(), BytecodeLoaderError>(
            BytecodeLoaderError::InvalidSectionLength(section_type, got_length),
        ),
{
    if expected_length != got_length {
        return Err(BytecodeLoaderError::InvalidSectionLength(section_type, got_length));
    }
    Ok(())
}

/// An empty set of block starts.
fn new_breaks() -> (b: BTreeSet<Gs2BytecodeAddress>)
    ensures
        b@ == Set::<Gs2BytecodeAddress>::empty(),
{
    BTreeSet::new()
}

/// Adds a block start.
fn insert_block_start(breaks: &mut BTreeSet<Gs2BytecodeAddress>, address: Gs2BytecodeAddress)
    ensures
        final(breaks)@ == old(breaks)@.insert(address),
{
    broadcast use vstd::laws_cmp::group_laws_cmp;

    breaks.insert(address);
}

/// The operand of a jump, as an address.
pub open spec fn jump_target(i: InstructionView) -> Gs2BytecodeAddress {
    match i.operand {
        Some(OperandView::Number(v)) => v as usize,
        _ => 0,
    }
}

/// What the sections keep true of the state: each instruction's address is its position; with
/// instructions, a block starts at 0; a jump has no operand or a number operand, and its target
/// starts a block.
pub open spec fn targets_are_breaks(st: LoadState) -> bool {
    &&& st.instructions.len() > 0 ==> st.breaks.contains(0)
    &&& forall|i: int| 0 <= i < st.instructions.len() ==> #[trigger] st.instructions[i].address == i
    &&& forall|i: int| 0 <= i < st.instructions.len() && spec_has_jump_target(#[trigger] st.instructions[i].opcode)
        ==> match st.instructions[i].operand {
            None => true,
            Some(OperandView::Number(v)) => st.breaks.contains(v as usize),
            Some(_) => false,
        }
}

/// The start of the block that holds `address`: the greatest block start at or before it, or 0
/// when there is none.
#[verifier::opaque]
pub open spec fn block_start_of(breaks: Set<Gs2BytecodeAddress>, address: Gs2BytecodeAddress) -> Gs2BytecodeAddress {
    if exists|b: Gs2BytecodeAddress| breaks.contains(b) && b <= address {
        choose|b: Gs2BytecodeAddress| breaks.contains(b) && b <= address && forall|x: Gs2BytecodeAddress|
            breaks.contains(x) && x <= address ==> x <= b
    } else {
        0
    }
}

/// The position of `a` in `s`.
#[verifier::opaque]
pub open spec fn index_in(s: Seq<Gs2BytecodeAddress>, a: Gs2BytecodeAddress) -> int {
    choose|i: int| 0 <= i < s.len() && s[i] == a
}

/// The edges that an instruction adds to the graph of blocks, whose nodes are the block starts
/// in increasing order: from its block to the target of a jump, and, at the end of a block,
/// to the next block when control can flow there.
pub open spec fn instruction_edges(starts: Seq<Gs2BytecodeAddress>, breaks: Set<Gs2BytecodeAddress>, i: InstructionView) -> Seq<(int, int)> {
    let source = index_in(starts, block_start_of(breaks, i.address));
    let jump = if spec_has_jump_target(i.opcode) {
        seq![(source, index_in(starts, jump_target(i)))]
    } else {
        seq![]
    };
    let next = (i.address + 1) as Gs2BytecodeAddress;
    let fall = if breaks.contains(next) && spec_connects_to_next_block(i.opcode) {
        seq![(source, index_in(starts, next))]
    } else {
        seq![]
    };
    jump + fall
}

/// The edges of the graph of blocks, instruction by instruction.
pub open spec fn module_edges(starts: Seq<Gs2BytecodeAddress>, breaks: Set<Gs2BytecodeAddress>, instructions: Seq<InstructionView>) -> Seq<(int, int)>
    decreases instructions.len(),
{
    if instructions.len() == 0 {
        seq![]
    } else {
        module_edges(starts, breaks, instructions.drop_last()) + instruction_edges(starts, breaks, instructions.last())
    }
}

/// The function that block `n` belongs to, among the first `k` functions: the last of them
/// whose address starts a block from which `n` can be reached.
pub open spec fn owner(starts: Seq<Gs2BytecodeAddress>, edges: Seq<(int, int)>, functions: FunctionEntries, k: nat, n: int) -> Option<nat>
    decreases k,
{
    if k == 0 {
        None
    } else {
        let a = functions[k - 1].1;
        if starts.contains(a) && reachable(edges, index_in(starts, a), n) {
            Some((k - 1) as nat)
        } else {
            owner(starts, edges, functions, (k - 1) as nat, n)
        }
    }
}

/// Positions in an increasing sequence are unique.
pub proof fn lemma_index_in(s: Seq<Gs2BytecodeAddress>, i: int)
    requires
        increasing(s),
        0 <= i < s.len(),
    ensures
        index_in(s, s[i]) == i,
{
    reveal(index_in);
    let j = index_in(s, s[i]);
    assert(0 <= j < s.len() && s[j] == s[i]);
    if j < i {
        assert(s[j] < s[i]);
    } else if j > i {
        assert(s[i] < s[j]);
    }
}

/// The position of `a` in the increasing sequence `starts`.
fn position(starts: &Vec<Gs2BytecodeAddress>, a: Gs2BytecodeAddress) -> (r: Option<usize>)
    requires
        increasing(starts@),
    ensures
        match r {
            Some(i) => i < starts@.len() && starts@[i as int] == a && index_in(starts@, a) == i,
            None => !starts@.contains(a),
        },
{
    let mut i: usize = 0;
    while i < starts.len()
        invariant
            i <= starts@.len(),
            increasing(starts@),
            forall|k: int| 0 <= k < i ==> starts@[k] != a,
        decreases starts@.len() - i,
    {
        if starts[i] == a {
            proof {
                lemma_index_in(starts@, i as int);
            }
            return Some(i);
        }
        i = i + 1;
    }
    None
}

/// The start of the block that holds `address`.
fn block_start(starts: &Vec<Gs2BytecodeAddress>, address: Gs2BytecodeAddress) -> (r: Gs2BytecodeAddress)
    requires
        increasing(starts@),
    ensures
        r == block_start_of(starts@.to_set(), address),
        r == 0 || starts@.contains(r),
{
    reveal(block_start_of);
    let mut block_start: Gs2BytecodeAddress = 0;
    let mut i: usize = 0;
    while i < starts.len() && starts[i] <= address
        invariant
            i <= starts@.len(),
            increasing(starts@),
            forall|k: int| 0 <= k < i ==> starts@[k] <= address,
            i == 0 ==> block_start == 0,
            i > 0 ==> block_start == starts@[i - 1],
        decreases starts@.len() - i,
    {
        block_start = starts[i];
        i = i + 1;
    }
    proof {
        let set = starts@.to_set();
        assert forall|x: Gs2BytecodeAddress| set.contains(x) && x <= address implies exists|k: int| 0 <= k < i && starts@[k] == x by {
            let k = choose|k: int| 0 <= k < starts@.len() && starts@[k] == x;
            if k >= i {
                assert(i < starts@.len());
                assert(starts@[i as int] > address);
                if k > i {
                    assert(starts@[i as int] < starts@[k]);
                }
            }
        }
        if i > 0 {
            assert(set.contains(block_start) && block_start <= address);
            assert forall|x: Gs2BytecodeAddress| set.contains(x) && x <= address implies x <= block_start by {
                let k = choose|k: int| 0 <= k < i && starts@[k] == x;
                if k < i - 1 {
                    assert(starts@[k] < starts@[i - 1]);
                }
            }
            let m = choose|b: Gs2BytecodeAddress| set.contains(b) && b <= address && forall|x: Gs2BytecodeAddress|
                set.contains(x) && x <= address ==> x <= b;
            assert(m <= block_start);
            assert(block_start <= m);
        } else {
            assert forall|x: Gs2BytecodeAddress| !(set.contains(x) && x <= address) by {
                if set.contains(x) && x <= address {
                    let k = choose|k: int| 0 <= k < i && starts@[k] == x;
                }
            }
        }
    }
    block_start
}

/// A module being read: the reader, and what its sections gave so far.
struct ModuleReader {
    reader: GraalReader,
    functions: FunctionMap,
    strings: Vec<String>,
    instructions: Vec<Instruction>,
    breaks: BTreeSet<Gs2BytecodeAddress>,
}

/// The abstract values of a sequence of strings.
pub open spec fn string_views(s: Seq<String>) -> Seq<Seq<char>> {
    s.map_values(|x: String| x@)
}

/// The abstract values of a sequence of instructions.
pub open spec fn instruction_views(s: Seq<Instruction>) -> Seq<InstructionView> {
    s.map_values(|i: Instruction| i@)
}

impl ModuleReader {
    spec fn state(&self) -> LoadState {
        LoadState {
            input: self.reader@,
            functions: self.functions@,
            strings: string_views(self.strings@),
            instructions: instruction_views(self.instructions@),
            breaks: self.breaks@,
        }
    }

    spec fn wf(&self) -> bool {
        &&& self.reader@.0.len() <= MAX_MODULE_LEN
        &&& self.reader@.1 <= self.reader@.0.len()
        &&& self.instructions@.len() <= self.reader@.1
        &&& self.breaks@.finite()
        &&& self.breaks@.len() <= self.reader@.1
        &&& targets_are_breaks(self.state())
    }

    fn u8_(&mut self) -> (r: Result<u8, BytecodeLoaderError>)
        requires
            old(self).wf(),
        ensures
            final(self).wf(),
            match take_u8(old(self).state().input) {
                Ok((v, rest)) => r == Ok::<u8, BytecodeLoaderError>(v) && final(self).state() == (LoadState { input: rest, ..old(self).state() }),
                Err(e) => r matches Err(x) && x@ == e,
            },
    {
        match self.reader.read_u8() {
            Ok(v) => Ok(v),
            Err(e) => Err(BytecodeLoaderError::GraalIo(e)),
        }
    }

    fn u16_(&mut self) -> (r: Result<u16, BytecodeLoaderError>)
        requires
            old(self).wf(),
        ensures
            final(self).wf(),
            match take_u16(old(self).state().input) {
                Ok((v, rest)) => r == Ok::<u16, BytecodeLoaderError>(v) && final(self).state() == (LoadState { input: rest, ..old(self).state() }),
                Err(e) => r matches Err(x) && x@ == e,
            },
    {
        match self.reader.read_u16() {
            Ok(v) => Ok(v),
            Err(e) => Err(BytecodeLoaderError::GraalIo(e)),
        }
    }

    fn u32_(&mut self) -> (r: Result<u32, BytecodeLoaderError>)
        requires
            old(self).wf(),
        ensures
            final(self).wf(),
            match take_u32(old(self).state().input) {
                Ok((v, rest)) => r == Ok::<u32, BytecodeLoaderError>(v) && final(self).state() == (LoadState { input: rest, ..old(self).state() }),
                Err(e) => r matches Err(x) && x@ == e,
            },
    {
        match self.reader.read_u32() {
            Ok(v) => Ok(v),
            Err(e) => Err(BytecodeLoaderError::GraalIo(e)),
        }
    }

    fn string_(&mut self) -> (r: Result<(String, u32), BytecodeLoaderError>)
        requires
            old(self).wf(),
        ensures
            final(self).wf(),
            match take_string(old(self).state().input) {
                Ok((b, rest)) => r matches Ok((s, n)) && s@ == latin1_chars(b) && n == b.len()
                    && final(self).state() == (LoadState { input: rest, ..old(self).state() })
                    && rest.1 == old(self).state().input.1 + b.len() + 1,
                Err(e) => r matches Err(x) && x@ == e,
            },
    {
        proof {
            lemma_first_zero_bound(remaining(self.reader@));
        }
        match self.reader.read_string() {
            Ok(v) => Ok(v),
            Err(e) => Err(BytecodeLoaderError::GraalIo(e)),
        }
    }

    /// The flags section (after its tag).
    fn read_gs1_flags(&mut self) -> (r: Result<(), BytecodeLoaderError>)
        requires
            old(self).wf(),
        ensures
            final(self).wf(),
            match gs1_flags_section(old(self).state()) {
                Ok(st) => r is Ok && final(self).state() == st,
                Err(e) => r matches Err(x) && x@ == e,
            },
    {
        let section_length = match self.u32_() {
            Ok(v) => v,
            Err(e) => return Err(e),
        };
        let _flags = match self.u32_() {
            Ok(v) => v,
            Err(e) => return Err(e),
        };
        expect_section_length(4, section_length, SectionType::Gs1Flags)
    }

    /// The functions section (after its tag).
    fn read_functions(&mut self) -> (r: Result<(), BytecodeLoaderError>)
        requires
            old(self).wf(),
        ensures
            final(self).wf(),
            match functions_section(old(self).state()) {
                Ok(st) => r is Ok && final(self).state() == st,
                Err(e) => r matches Err(x) && x@ == e,
            },
    {
        let section_length = match self.u32_() {
            Ok(v) => v,
            Err(e) => return Err(e),
        };
        self.functions.insert(None, 0);
        let ghost start = self.reader@.1;
        let mut bytes_read: u32 = 0;
        while bytes_read < section_length
            invariant
                self.wf(),
                start <= self.reader@.1,
                bytes_read <= 2 * (self.reader@.1 - start),
                functions_section(old(self).state()) == close_section(
                    function_entries(self.state(), section_length, bytes_read as nat),
                    section_length,
                    SectionType::Functions,
                ),
            decreases left(section_length, bytes_read as nat),
        {
            let ghost cur = self.state();
            let ghost pos0 = self.reader@.1;
            let function_location = match self.u32_() {
                Ok(v) => v as usize,
                Err(e) => return Err(e),
            };
            let ghost after_loc = self.state();
            let (function_name, n) = match self.string_() {
                Ok(v) => v,
                Err(e) => return Err(e),
            };
            self.functions.insert(Some(function_name), function_location);
            bytes_read = bytes_read + 4 + n as u32;
            bytes_read = bytes_read + 1;
            insert_block_start(&mut self.breaks, function_location);
        }
        match expect_section_length(section_length, bytes_read, SectionType::Functions) {
            Ok(()) => Ok(()),
            Err(e) => Err(e),
        }
    }

    /// The strings section (after its tag).
    fn read_strings(&mut self) -> (r: Result<(), BytecodeLoaderError>)
        requires
            old(self).wf(),
        ensures
            final(self).wf(),
            match strings_section(old(self).state()) {
                Ok(st) => r is Ok && final(self).state() == st,
                Err(e) => r matches Err(x) && x@ == e,
            },
    {
        let section_length = match self.u32_() {
            Ok(v) => v,
            Err(e) => return Err(e),
        };
        let ghost start = self.reader@.1;
        let mut bytes_read: u32 = 0;
        while bytes_read < section_length
            invariant
                self.wf(),
                start <= self.reader@.1,
                bytes_read <= self.reader@.1 - start,
                strings_section(old(self).state()) == close_section(
                    string_entries(self.state(), section_length, bytes_read as nat),
                    section_length,
                    SectionType::Strings,
                ),
            decreases left(section_length, bytes_read as nat),
        {
            let (string, raw_len) = match self.string_() {
                Ok(v) => v,
                Err(e) => return Err(e),
            };
            let ghost before = self.strings@;
            self.strings.push(string);
            proof {
                assert(string_views(self.strings@) =~= string_views(before).push(string@));
            }
            bytes_read = bytes_read + raw_len;
            bytes_read = bytes_read + 1;
        }
        match expect_section_length(section_length, bytes_read, SectionType::Strings) {
            Ok(()) => Ok(()),
            Err(e) => Err(e),
        }
    }

    /// The operand that `opcode` reads, with the count of bytes it adds.
    fn read_operand(&mut self, opcode: Opcode) -> (r: Result<Option<(Operand, usize)>, BytecodeLoaderError>)
        requires
            old(self).wf(),
        ensures
            final(self).wf(),
            match read_operand(opcode, old(self).state().input, old(self).state().strings) {
                Ok((Some((op, n)), rest)) => r matches Ok(Some((o, m))) && o@ == op && m == n
                    && final(self).state() == (LoadState { input: rest, ..old(self).state() })
                    && n <= 2 * (rest.1 - old(self).state().input.1),
                Ok((None, rest)) => r matches Ok(None) && final(self).state() == (LoadState { input: rest, ..old(self).state() }),
                Err(e) => r matches Err(x) && x@ == e,
            },
    {
        match opcode {
            Opcode::ImmStringByte => {
                let i = match self.u8_() {
                    Ok(v) => v as usize,
                    Err(e) => return Err(e),
                };
                self.string_operand(i, 1)
            },
            Opcode::ImmStringShort => {
                let i = match self.u16_() {
                    Ok(v) => v as usize,
                    Err(e) => return Err(e),
                };
                self.string_operand(i, 2)
            },
            Opcode::ImmStringInt => {
                let i = match self.u32_() {
                    Ok(v) => v as usize,
                    Err(e) => return Err(e),
                };
                self.string_operand(i, 4)
            },
            Opcode::ImmByte => match self.u8_() {
                Ok(v) => Ok(Some((Operand::new_number(v as i8 as i32), 1))),
                Err(e) => Err(e),
            },
            Opcode::ImmShort => match self.u16_() {
                Ok(v) => Ok(Some((Operand::new_number(v as i16 as i32), 2))),
                Err(e) => Err(e),
            },
            Opcode::ImmInt => match self.u32_() {
                Ok(v) => Ok(Some((Operand::new_number(v as i32), 4))),
                Err(e) => Err(e),
            },
            Opcode::ImmFloat => {
                let ghost before = self.state();
                match self.string_() {
                    Ok((value, n)) => {
                        Ok(Some((Operand::Float(value), n as usize + 1)))
                    },
                    Err(e) => Err(e),
                }
            },
            _ => Ok(None),
        }
    }

    /// The string at `index`, as an operand that adds `width` bytes.
    fn string_operand(&self, index: usize, width: usize) -> (r: Result<Option<(Operand, usize)>, BytecodeLoaderError>)
        ensures
            match string_operand(self.state().strings, index as nat, width as nat, self.state().input) {
                Ok((Some((op, n)), _)) => r matches Ok(Some((o, m))) && o@ == op && m == n,
                Ok((None, _)) => false,
                Err(e) => r matches Err(x) && x@ == e,
            },
    {
        if index < self.strings.len() {
            Ok(Some((Operand::String(self.strings[index].clone()), width)))
        } else {
            Err(BytecodeLoaderError::StringIndexOutOfBounds(index, self.strings.len()))
        }
    }

    /// One entry of the instructions section; gives the count of bytes it adds besides its
    /// opcode.
    fn entry_(&mut self) -> (r: Result<usize, BytecodeLoaderError>)
        requires
            old(self).wf(),
            old(self).breaks@.contains(0),
        ensures
            final(self).wf(),
            r is Ok ==> final(self).breaks@.contains(0),
            match instruction_entry(old(self).state()) {
                Ok((st, n)) => r == Ok::<usize, BytecodeLoaderError>(n as usize) && final(self).state() == st
                    && 1 + n <= 2 * (final(self).reader@.1 - old(self).reader@.1),
                Err(e) => r matches Err(x) && x@ == e,
            },
    {
        let b = match self.u8_() {
            Ok(v) => v,
            Err(e) => return Err(e),
        };
        let opcode = match Opcode::from_byte(b) {
            Ok(o) => o,
            Err(e) => return Err(BytecodeLoaderError::OpcodeError(e)),
        };
        let operand = match self.read_operand(opcode) {
            Ok(o) => o,
            Err(e) => return Err(e),
        };
        match operand {
            Some((operand, n)) => {
                if self.instructions.len() == 0 {
                    return Err(BytecodeLoaderError::NoPreviousInstruction);
                }
                let is_jump = self.instructions[self.instructions.len() - 1].opcode.has_jump_target();
                let target = if is_jump {
                    match operand.get_number_value() {
                        Ok(v) => v as usize,
                        Err(e) => return Err(BytecodeLoaderError::InvalidOperand(e)),
                    }
                } else {
                    0
                };
                let ghost before = self.instructions@;
                let mut last = self.instructions.pop().unwrap();
                last.set_operand(operand);
                self.instructions.push(last);
                proof {
                    assert(instruction_views(self.instructions@) =~= instruction_views(before).update(
                        before.len() - 1,
                        InstructionView { operand: Some(operand@), ..before.last()@ },
                    ));
                }
                let ghost views = instruction_views(self.instructions@);
                let ghost old_breaks = self.breaks@;
                if is_jump {
                    insert_block_start(&mut self.breaks, target);
                }
                proof {
                    let st = self.state();
                    assert forall|i: int| 0 <= i < st.instructions.len() && spec_has_jump_target(#[trigger] st.instructions[i].opcode)
                        implies match st.instructions[i].operand {
                            None => true,
                            Some(OperandView::Number(v)) => st.breaks.contains(v as usize),
                            Some(_) => false,
                        } by {
                        if i < st.instructions.len() - 1 {
                            assert(st.instructions[i] == instruction_views(before)[i]);
                            assert(old_breaks.subset_of(st.breaks));
                        }
                    }
                    assert(old_breaks.subset_of(st.breaks));
                }
                Ok(n)
            },
            None => {
                let address = self.instructions.len();
                let ghost before = self.instructions@;
                self.instructions.push(Instruction::new(opcode, address));
                proof {
                    assert(instruction_views(self.instructions@) =~= instruction_views(before).push(
                        InstructionView { opcode, address, operand: None },
                    ));
                }
                let ghost old_breaks = self.breaks@;
                if opcode.is_block_end() {
                    insert_block_start(&mut self.breaks, address + 1);
                }
                proof {
                    let st = self.state();
                    assert forall|i: int| 0 <= i < st.instructions.len() && spec_has_jump_target(#[trigger] st.instructions[i].opcode)
                        implies match st.instructions[i].operand {
                            None => true,
                            Some(OperandView::Number(v)) => st.breaks.contains(v as usize),
                            Some(_) => false,
                        } by {
                        if i < st.instructions.len() - 1 {
                            assert(st.instructions[i] == instruction_views(before)[i]);
                        }
                    }
                }
                Ok(0)
            },
        }
    }

    /// The instructions section (after its tag).
    fn read_instructions(&mut self) -> (r: Result<(), BytecodeLoaderError>)
        requires
            old(self).wf(),
        ensures
            final(self).wf(),
            match instructions_section(old(self).state()) {
                Ok(st) => r is Ok && final(self).state() == st,
                Err(e) => r matches Err(x) && x@ == e,
            },
    {
        let section_length = match self.u32_() {
            Ok(v) => v,
            Err(e) => return Err(e),
        };
        insert_block_start(&mut self.breaks, 0);
        let ghost start = self.reader@.1;
        let ghost after = match take_u32(LoadState { breaks: old(self).breaks@.insert(0), ..old(self).state() }.input) {
            Ok((_, r1)) => r1,
            Err(_) => self.reader@,
        };
        let mut bytes_read: u32 = 0;
        while bytes_read < section_length
            invariant
                self.wf(),
                self.breaks@.contains(0),
                start <= self.reader@.1,
                bytes_read <= 2 * (self.reader@.1 - start),
                instructions_section(old(self).state()) == match close_section(
                    instruction_entries(self.state(), section_length, bytes_read as nat),
                    section_length,
                    SectionType::Instructions,
                ) {
                    Err(e) => Err(e),
                    Ok(st2) => check_breaks(st2),
                },
            decreases left(section_length, bytes_read as nat),
        {
            let n = match self.entry_() {
                Ok(n) => n,
                Err(e) => return Err(e),
            };
            bytes_read = bytes_read + 1 + n as u32;
        }
        match expect_section_length(section_length, bytes_read, SectionType::Instructions) {
            Ok(()) => {},
            Err(e) => return Err(e),
        }
        self.check_breaks_()
    }

    /// The check that ends the instructions section.
    fn check_breaks_(&mut self) -> (r: Result<(), BytecodeLoaderError>)
        requires
            old(self).wf(),
        ensures
            final(self).wf(),
            match check_breaks(old(self).state()) {
                Ok(st) => r is Ok && final(self).state() == st,
                Err(e) => r matches Err(x) && x@ == e,
            },
    {
        if self.instructions.len() == 0 {
            self.breaks.clear();
        }
        let count = self.instructions.len();
        let ordered = ordered_addresses(&self.breaks);
        let mut i: usize = 0;
        while i < ordered.len()
            invariant
                i <= ordered@.len(),
                ordered@.to_set() == self.breaks@,
                increasing(ordered@),
                count == self.instructions@.len(),
                self.wf(),
                self.breaks@ == kept_breaks(old(self).state()),
                self.state() == (LoadState { breaks: self.breaks@, ..old(self).state() }),
                forall|k: int| 0 <= k < i ==> ordered@[k] <= count,
            decreases ordered@.len() - i,
        {
            if ordered[i] > count {
                let a = ordered[i];
                proof {
                    let bad = self.breaks@;
                    assert(ordered@.to_set().contains(a));
                    assert forall|x: Gs2BytecodeAddress| bad.contains(x) && x > count implies a <= x by {
                        assert(ordered@.to_set().contains(x));
                        let j = choose|j: int| 0 <= j < ordered@.len() && ordered@[j] == x;
                        if j < i {
                            assert(ordered@[j] <= count);
                        } else if j > i {
                            assert(ordered@[i as int] < ordered@[j]);
                        }
                    }
                    reveal(least_above);
                    let m = least_above(bad, count as nat);
                    assert(bad.contains(m) && m > count);
                    assert(a <= m);
                    assert(m <= a);
                    assert(bad.contains(a) && a > count);
                    let st = old(self).state();
                    assert(kept_breaks(st) == bad);
                    assert(break_above(bad, count as nat));
                }
                return Err(BytecodeLoaderError::InvalidOperand(OperandError::InvalidJumpTarget(a)));
            }
            i = i + 1;
        }
        proof {
            assert forall|x: Gs2BytecodeAddress| self.breaks@.contains(x) implies x <= count by {
                assert(ordered@.to_set().contains(x));
                let j = choose|j: int| 0 <= j < ordered@.len() && ordered@[j] == x;
                assert(ordered@[j] <= count);
            }
        }
        Ok(())
    }

    /// One section.
    fn section_(&mut self) -> (r: Result<(), BytecodeLoaderError>)
        requires
            old(self).wf(),
        ensures
            final(self).wf(),
            match section(old(self).state()) {
                Ok(st) => r is Ok && final(self).state() == st,
                Err(e) => r matches Err(x) && x@ == e,
            },
    {
        let tag = match self.u32_() {
            Ok(v) => v,
            Err(e) => return Err(e),
        };
        match tag {
            1 => self.read_gs1_flags(),
            2 => self.read_functions(),
            3 => self.read_strings(),
            4 => self.read_instructions(),
            _ => Err(BytecodeLoaderError::InvalidSectionType(tag)),
        }
    }

    /// Reads the four sections of a module.
    fn load(bytes: Vec<u8>) -> (r: Result<ModuleReader, BytecodeLoaderError>)
        requires
            bytes@.len() <= MAX_MODULE_LEN,
        ensures
            match parse_module(bytes@) {
                Ok(st) => r matches Ok(m) && m.wf() && m.state() == st,
                Err(e) => r matches Err(x) && x@ == e,
            },
    {
        let mut m = ModuleReader {
            reader: GraalReader::new(bytes),
            functions: FunctionMap::new(),
            strings: Vec::new(),
            instructions: Vec::new(),
            breaks: new_breaks(),
        };
        proof {
            assert(string_views(m.strings@) =~= Seq::<Seq<char>>::empty());
            assert(instruction_views(m.instructions@) =~= Seq::<InstructionView>::empty());
        }
        let mut k: usize = 0;
        while k < 4
            invariant
                k <= 4,
                m.wf(),
                parse_module(bytes@) == sections(m.state(), (4 - k) as nat),
            decreases 4 - k,
        {
            match m.section_() {
                Ok(()) => {},
                Err(e) => return Err(e),
            }
            k = k + 1;
        }
        Ok(m)
    }
}

/// Adds the edges of one instruction to the graph of blocks.
#[verifier::rlimit(30)]
fn add_instruction_edges(cfg: &mut DiGraph<(), ()>, starts: &Vec<Gs2BytecodeAddress>, Ghost(breaks): Ghost<Set<Gs2BytecodeAddress>>, ins: &Instruction)
    requires
        increasing(starts@),
        starts@.to_set() == breaks,
        graph_node_count(*old(cfg)) == starts@.len(),
        graph_edges(*old(cfg)).len() + 2 < u32::MAX,
        ins.address < usize::MAX,
        breaks.contains(0),
        spec_has_jump_target(ins.opcode) ==> (ins@.operand matches Some(OperandView::Number(v)) && breaks.contains(v as usize)),
    ensures
        graph_node_count(*final(cfg)) == graph_node_count(*old(cfg)),
        graph_edges(*final(cfg)) == graph_edges(*old(cfg)) + instruction_edges(starts@, breaks, ins@),
{
    let ghost iv = ins@;
    let address = ins.address;
    let current = block_start(starts, address);
    let source = match position(starts, current) {
        Some(n) => n,
        None => {
            proof {
                assert(starts@.to_set().contains(current));
            }
            0
        },
    };
    let ghost src = index_in(starts@, block_start_of(breaks, iv.address));
    assert(source == src);
    let ghost before = graph_edges(*cfg);
    let ghost jump: Seq<(int, int)> = if spec_has_jump_target(iv.opcode) {
        seq![(src, index_in(starts@, jump_target(iv)))]
    } else {
        seq![]
    };
    if ins.opcode.has_jump_target() {
        let target = match &ins.operand {
            Some(Operand::Number(v)) => *v as usize,
            _ => 0,
        };
        assert(target == jump_target(iv));
        let t = match position(starts, target) {
            Some(n) => n,
            None => {
                proof {
                    assert(starts@.to_set().contains(target));
                }
                0
            },
        };
        graph_add_edge(cfg, source, t);
    }
    assert(graph_edges(*cfg) =~= before + jump);
    let ghost mid = graph_edges(*cfg);
    let next = address + 1;
    let ghost fall: Seq<(int, int)> = if breaks.contains(next) && spec_connects_to_next_block(iv.opcode) {
        seq![(src, index_in(starts@, next))]
    } else {
        seq![]
    };
    let found = position(starts, next);
    if found.is_some() && ins.opcode.connects_to_next_block() {
        let t = found.unwrap();
        graph_add_edge(cfg, source, t);
    }
    proof {
        if found is None {
            assert(!starts@.contains(next));
            assert(!breaks.contains(next));
        } else {
            assert(starts@.contains(next));
        }
        assert(graph_edges(*cfg) =~= mid + fall);
        assert(instruction_edges(starts@, breaks, iv) == jump + fall);
        assert(before + jump + fall =~= before + (jump + fall));
    }
}

/// A builder for a `BytecodeLoader`.
pub struct BytecodeLoaderBuilder {
    reader: Vec<u8>,
}

impl BytecodeLoaderBuilder {
    /// The bytes of the module.
    pub closed spec fn bytes(&self) -> Seq<u8> {
        self.reader@
    }

    /// Creates a builder over the bytes of a module.
    pub fn new(reader: Vec<u8>) -> (b: Self)
        ensures
            b.bytes() == reader@,
    {
        BytecodeLoaderBuilder { reader }
    }

    /// Whether the module's sections read without error but leave a jump without an operand,
    /// which the loader cannot place in the graph of blocks.
    pub fn has_jump_without_operand(&self) -> (b: bool)
        requires
            self.bytes().len() <= MAX_MODULE_LEN,
        ensures
            b == (parse_module(self.bytes()) matches Ok(st) && !jumps_have_operands(st.instructions)),
    {
        let bytes = self.reader.clone();
        assert(bytes@ =~= self.reader@);
        match ModuleReader::load(bytes) {
            Ok(m) => {
                let mut i: usize = 0;
                while i < m.instructions.len()
                    invariant
                        parse_module(self.bytes()) == Ok::<LoadState, LoaderErrorView>(m.state()),
                        i <= m.instructions@.len(),
                        forall|k: int| 0 <= k < i && spec_has_jump_target(#[trigger] m.instructions@[k].opcode)
                            ==> m.instructions@[k].operand is Some,
                    decreases m.instructions@.len() - i,
                {
                    if m.instructions[i].opcode.has_jump_target() && m.instructions[i].operand.is_none() {
                        proof {
                            let v = instruction_views(m.instructions@);
                            assert(v[i as int] == m.instructions@[i as int]@);
                            assert(spec_has_jump_target(v[i as int].opcode) && v[i as int].operand is None);
                            assert(!jumps_have_operands(v));
                        }
                        return true;
                    }
                    i = i + 1;
                }
                proof {
                    let v = instruction_views(m.instructions@);
                    assert forall|k: int| 0 <= k < v.len() && spec_has_jump_target(#[trigger] v[k].opcode) implies v[k].operand is Some by {
                        assert(v[k] == m.instructions@[k]@);
                    }
                }
                false
            },
            Err(_) => false,
        }
    }

    /// Reads the module and builds the graph of its blocks, and finds the function of each
    /// block.
    pub fn build(self) -> (r: Result<BytecodeLoader, BytecodeLoaderError>)
        requires
            self.bytes().len() <= MAX_MODULE_LEN,
            parse_module(self.bytes()) matches Ok(st) ==> jumps_have_operands(st.instructions),
        ensures
            match parse_module(self.bytes()) {
                Ok(st) => r matches Ok(l) && l.wf() && l.functions() == st.functions
                    && l.string_table() == st.strings && l.instruction_list() == st.instructions
                    && l.breaks() == st.breaks && targets_are_breaks(st),
                Err(e) => r matches Err(x) && x@ == e,
            },
    {
        let m = match ModuleReader::load(self.reader) {
            Ok(m) => m,
            Err(e) => return Err(e),
        };
        let ghost st = m.state();
        let ModuleReader { reader, functions, strings, instructions, breaks } = m;
        let starts = ordered_addresses(&breaks);
        proof {
            assert(starts@.no_duplicates()) by {
                assert forall|a: int, b: int| 0 <= a < starts@.len() && 0 <= b < starts@.len() && a != b implies starts@[a] != starts@[b] by {
                    if a < b {
                        assert(starts@[a] < starts@[b]);
                    } else {
                        assert(starts@[b] < starts@[a]);
                    }
                }
            }
            starts@.unique_seq_to_set();
        }
        let ghost views = instruction_views(instructions@);
        let mut cfg = graph_new();
        let mut k: usize = 0;
        while k < starts.len()
            invariant
                k <= starts@.len(),
                starts@.len() == breaks@.len(),
                breaks@.len() <= MAX_MODULE_LEN,
                graph_node_count(cfg) == k,
                graph_edges(cfg) == Seq::<(int, int)>::empty(),
            decreases starts@.len() - k,
        {
            let _ = graph_add_node(&mut cfg);
            k = k + 1;
        }
        let mut i: usize = 0;
        while i < instructions.len()
            invariant
                i <= instructions@.len(),
                instructions@.len() <= MAX_MODULE_LEN,
                views == instruction_views(instructions@),
                targets_are_breaks(st),
                st.instructions == views,
                st.breaks == breaks@,
                jumps_have_operands(views),
                increasing(starts@),
                starts@.to_set() == breaks@,
                graph_node_count(cfg) == starts@.len(),
                graph_edges(cfg).len() <= 2 * i,
                graph_edges(cfg) == module_edges(starts@, breaks@, views.take(i as int)),
            decreases instructions@.len() - i,
        {
            let ins = &instructions[i];
            proof {
                assert(views[i as int] == ins@);
                assert(ins@.address == i);
                assert(breaks@.contains(0));
                if spec_has_jump_target(ins@.opcode) {
                    assert(spec_has_jump_target(views[i as int].opcode));
                }
            }
            let ghost before = graph_edges(cfg);
            add_instruction_edges(&mut cfg, &starts, Ghost(breaks@), ins);
            proof {
                assert(views.take(i + 1).drop_last() =~= views.take(i as int));
                assert(views.take(i + 1).last() == views[i as int]);
            }
            i = i + 1;
        }
        assert(views.take(i as int) =~= views);
        let ghost edges = graph_edges(cfg);
        let mut owners: Vec<Option<usize>> = Vec::new();
        let mut n: usize = 0;
        while n < starts.len()
            invariant
                n <= starts@.len(),
                owners@.len() == n,
                forall|j: int| 0 <= j < n ==> owners@[j] is None,
            decreases starts@.len() - n,
        {
            owners.push(None);
            n = n + 1;
        }
        let mut j: usize = 0;
        while j < functions.len()
            invariant
                j <= functions@.len(),
                starts@.len() <= MAX_MODULE_LEN,
                owners@.len() == starts@.len(),
                graph_node_count(cfg) == starts@.len(),
                graph_edges(cfg) == edges,
                increasing(starts@),
                forall|x: int| 0 <= x < owners@.len() ==> #[trigger] same_owner(owners@[x], owner(starts@, edges, functions@, j as nat, x)),
            decreases functions@.len() - j,
        {
            let (_, address) = functions.entry(j);
            let ghost prev = owners@;
            match position(&starts, address) {
                Some(node) => {
                    let reached = graph_dfs(&cfg, node);
                    let ghost rv = reached@.map_values(|q: usize| q as int);
                    proof {
                        assert forall|x: int| 0 <= x < starts@.len() implies #[trigger] rv.contains(x) == reachable(edges, node as int, x) by {
                            let xu = x as usize;
                            assert(xu as int == x);
                            assert(reached@.contains(xu) == (xu < graph_node_count(cfg) && reachable(graph_edges(cfg), node as int, xu as int)));
                            if reached@.contains(xu) {
                                let y = choose|y: int| 0 <= y < reached@.len() && reached@[y] == xu;
                                assert(rv[y] == x);
                            }
                            if rv.contains(x) {
                                let y = choose|y: int| 0 <= y < rv.len() && rv[y] == x;
                                assert(reached@[y] == xu);
                            }
                        }
                    }
                    let mut t: usize = 0;
                    while t < reached.len()
                        invariant
                            t <= reached@.len(),
                            rv == reached@.map_values(|q: usize| q as int),
                            owners@.len() == prev.len(),
                            prev.len() == starts@.len(),
                            graph_node_count(cfg) == starts@.len(),
                            forall|q: usize| reached@.contains(q) ==> q < graph_node_count(cfg),
                            forall|x: int| 0 <= x < owners@.len() ==> #[trigger] owners@[x] == if rv.take(t as int).contains(x) { Some(j) } else { prev[x] },
                        decreases reached@.len() - t,
                    {
                        let q = reached[t];
                        assert(reached@.contains(q));
                        let ghost o = owners@;
                        owners.set(q, Some(j));
                        proof {
                            let before = rv.take(t as int);
                            let after = rv.take(t + 1);
                            assert(after =~= before.push(q as int));
                            assert forall|x: int| 0 <= x < owners@.len() implies #[trigger] owners@[x] == if after.contains(x) { Some(j) } else { prev[x] } by {
                                assert(o[x] == if before.contains(x) { Some(j) } else { prev[x] });
                                if x == q as int {
                                    assert(after[t as int] == x);
                                } else {
                                    if before.contains(x) {
                                        let y = choose|y: int| 0 <= y < before.len() && before[y] == x;
                                        assert(after[y] == x);
                                    }
                                    if after.contains(x) {
                                        let y = choose|y: int| 0 <= y < after.len() && after[y] == x;
                                        assert(before[y] == x);
                                    }
                                }
                            }
                        }
                        t = t + 1;
                    }
                    proof {
                        assert(rv.take(t as int) =~= rv);
                        assert forall|x: int| 0 <= x < owners@.len() implies #[trigger] same_owner(owners@[x], owner(starts@, edges, functions@, (j + 1) as nat, x)) by {
                            assert(same_owner(prev[x], owner(starts@, edges, functions@, j as nat, x)));
                            assert(starts@.contains(address));
                            assert(rv.contains(x) == reachable(edges, node as int, x));
                        }
                    }
                },
                None => {
                    proof {
                        assert forall|x: int| 0 <= x < owners@.len() implies #[trigger] same_owner(owners@[x], owner(starts@, edges, functions@, (j + 1) as nat, x)) by {
                            assert(same_owner(prev[x], owner(starts@, edges, functions@, j as nat, x)));
                        }
                    }
                },
            }
            j = j + 1;
        }
        let _ = reader;
        Ok(BytecodeLoader {
            strings,
            function_map: functions,
            instructions,
            block_breaks: breaks,
            block_starts: starts,
            raw_block_graph: cfg,
            block_functions: owners,
        })
    }
}

/// An owner stored as a position, against the owner of the model.
pub open spec fn same_owner(stored: Option<usize>, model: Option<nat>) -> bool {
    match (stored, model) {
        (Some(a), Some(b)) => a == b,
        (None, None) => true,
        _ => false,
    }
}

/// A loaded module: its functions, strings and instructions, where its blocks start, the graph
/// of its blocks, and the function of each block.
pub struct BytecodeLoader {
    strings: Vec<String>,
    function_map: FunctionMap,
    instructions: Vec<Instruction>,
    block_breaks: BTreeSet<Gs2BytecodeAddress>,
    block_starts: Vec<Gs2BytecodeAddress>,
    raw_block_graph: DiGraph<(), ()>,
    block_functions: Vec<Option<usize>>,
}

impl BytecodeLoader {
    /// The functions of the module, with their addresses.
    pub closed spec fn functions(&self) -> FunctionEntries {
        self.function_map@
    }

    /// The strings of the module.
    pub closed spec fn string_table(&self) -> Seq<Seq<char>> {
        string_views(self.strings@)
    }

    /// The instructions of the module.
    pub closed spec fn instruction_list(&self) -> Seq<InstructionView> {
        instruction_views(self.instructions@)
    }

    /// The addresses where blocks start.
    pub closed spec fn breaks(&self) -> Set<Gs2BytecodeAddress> {
        self.block_breaks@
    }

    /// The block starts in increasing order; node `i` of the graph stands for the `i`-th.
    pub closed spec fn starts(&self) -> Seq<Gs2BytecodeAddress> {
        self.block_starts@
    }

    /// The edges of the graph of blocks, in the order they were added.
    pub closed spec fn edges(&self) -> Seq<(int, int)> {
        graph_edges(self.raw_block_graph)
    }

    /// For each node, the position in the function map of the function its block belongs to.
    pub closed spec fn owners(&self) -> Seq<Option<usize>> {
        self.block_functions@
    }

    /// The functions of the module, with their addresses.
    pub fn function_map(&self) -> (m: &FunctionMap)
        ensures
            m@ == self.functions(),
    {
        &self.function_map
    }

    /// The strings of the module.
    pub fn strings(&self) -> (s: &Vec<String>)
        ensures
            string_views(s@) == self.string_table(),
    {
        &self.strings
    }

    /// The instructions of the module.
    pub fn instructions(&self) -> (i: &Vec<Instruction>)
        ensures
            instruction_views(i@) == self.instruction_list(),
    {
        &self.instructions
    }

    /// The addresses where blocks start.
    pub fn block_breaks(&self) -> (b: &BTreeSet<Gs2BytecodeAddress>)
        ensures
            b@ == self.breaks(),
    {
        &self.block_breaks
    }

    /// The graph and the functions of the blocks agree with the module's contents.
    pub open spec fn wf(&self) -> bool {
        &&& increasing(self.starts())
        &&& self.starts().to_set() == self.breaks()
        &&& self.edges() == module_edges(self.starts(), self.breaks(), self.instruction_list())
        &&& self.owners().len() == self.starts().len()
        &&& forall|n: int| 0 <= n < self.starts().len() ==> #[trigger] same_owner(
            self.owners()[n],
            owner(self.starts(), self.edges(), self.functions(), self.functions().len(), n),
        )
    }

    /// The start of the block that holds `address`: the greatest block start at or before it,
    /// or 0 when there is none.
    pub fn find_block_start_address(&self, address: Gs2BytecodeAddress) -> (r: Gs2BytecodeAddress)
        requires
            self.wf(),
        ensures
            r == block_start_of(self.breaks(), address),
    {
        block_start(&self.block_starts, address)
    }

    /// The position in the function map of the function that the block holding `address`
    /// belongs to.
    fn owner_of(&self, address: Gs2BytecodeAddress) -> (r: Option<usize>)
        requires
            self.wf(),
        ensures
            ({
                let b = block_start_of(self.breaks(), address);
                if self.breaks().contains(b) {
                    same_owner(r, owner(self.starts(), self.edges(), self.functions(), self.functions().len(), index_in(self.starts(), b)))
                } else {
                    r is None
                }
            }),
    {
        let b = block_start(&self.block_starts, address);
        match position(&self.block_starts, b) {
            Some(n) => {
                assert(same_owner(self.block_functions@[n as int], owner(self.starts(), self.edges(), self.functions(), self.functions().len(), n as int)));
                self.block_functions[n]
            },
            None => {
                assert(!self.starts().to_set().contains(b));
                None
            },
        }
    }

    /// Whether the block that holds the instruction at `address` belongs to some function.
    pub fn is_instruction_reachable(&self, address: Gs2BytecodeAddress) -> (b: bool)
        requires
            self.wf(),
        ensures
            ({
                let s = block_start_of(self.breaks(), address);
                b == (self.breaks().contains(s) && owner(self.starts(), self.edges(), self.functions(), self.functions().len(), index_in(self.starts(), s)) is Some)
            }),
    {
        self.owner_of(address).is_some()
    }

    /// The name of the function that the block holding `address` belongs to (none for the
    /// entry point); an error names the block's start when it belongs to no function.
    pub fn get_function_name_for_address(&self, address: Gs2BytecodeAddress) -> (r: Result<Option<String>, BytecodeLoaderError>)
        requires
            self.wf(),
        ensures
            ({
                let s = block_start_of(self.breaks(), address);
                match (if self.breaks().contains(s) {
                    owner(self.starts(), self.edges(), self.functions(), self.functions().len(), index_in(self.starts(), s))
                } else {
                    None
                }) {
                    Some(k) => r matches Ok(name) && name_view(name) == self.functions()[k as int].0,
                    None => r == Err::<Option<String>, BytecodeLoaderError>(BytecodeLoaderError::UnreachableBlock(s)),
                }
            }),
    {
        let block_start = self.find_block_start_address(address);
        match self.owner_of(address) {
            Some(k) => {
                proof {
                    lemma_owner_bound(self.starts(), self.edges(), self.functions(), self.functions().len(), index_in(self.starts(), block_start));
                }
                let (name, _) = self.function_map.entry(k);
                let copy = match name {
                    Some(n) => Some(n.clone()),
                    None => None,
                };
                Ok(copy)
            },
            None => Err(BytecodeLoaderError::UnreachableBlock(block_start)),
        }
    }
}

/// Every function whose address starts a block owns that block or leaves it to a later
/// function: the block belongs to some function.
pub proof fn law_function_start_reachable(l: &BytecodeLoader, f: nat)
    requires
        l.wf(),
        f < l.functions().len(),
        l.breaks().contains(l.functions()[f as int].1),
    ensures
        ({
            let a = l.functions()[f as int].1;
            owner(l.starts(), l.edges(), l.functions(), l.functions().len(), index_in(l.starts(), block_start_of(l.breaks(), a))) matches Some(j) && f <= j
        }),
{
    let a = l.functions()[f as int].1;
    reveal(block_start_of);
    assert(l.starts().to_set().contains(a));
    let i = choose|i: int| 0 <= i < l.starts().len() && l.starts()[i] == a;
    lemma_index_in(l.starts(), i);
    let m = index_in(l.starts(), a);
    assert(block_start_of(l.breaks(), a) == a);
    let path = seq![m];
    assert(path.len() >= 1 && path[0] == m && path.last() == m);
    assert(reachable(l.edges(), m, m));
    lemma_owner_from(l.starts(), l.edges(), l.functions(), l.functions().len(), f, m);
}

/// The owner among the first `k` functions is at or after any function `f` below `k` whose
/// block reaches `n`.
pub proof fn lemma_owner_from(starts: Seq<Gs2BytecodeAddress>, edges: Seq<(int, int)>, functions: FunctionEntries, k: nat, f: nat, n: int)
    requires
        f < k <= functions.len(),
        starts.contains(functions[f as int].1),
        reachable(edges, index_in(starts, functions[f as int].1), n),
    ensures
        owner(starts, edges, functions, k, n) matches Some(j) && f <= j,
    decreases k,
{
    if k - 1 > f {
        let a = functions[k - 1].1;
        if !(starts.contains(a) && reachable(edges, index_in(starts, a), n)) {
            lemma_owner_from(starts, edges, functions, (k - 1) as nat, f, n);
        }
    }
}

/// An owner is one of the functions considered.
pub proof fn lemma_owner_bound(starts: Seq<Gs2BytecodeAddress>, edges: Seq<(int, int)>, functions: FunctionEntries, k: nat, n: int)
    ensures
        owner(starts, edges, functions, k, n) matches Some(j) ==> j < k,
    decreases k,
{
    if k > 0 {
        lemma_owner_bound(starts, edges, functions, (k - 1) as nat, n);
    }
}

} // verus!
