use gbf_core::basic_block::{BasicBlockId, BasicBlockType};
use gbf_core::function::{Function, FunctionId};
use gbf_core::instruction::Instruction;
use gbf_core::opcode::Opcode;

#[test]
fn create_function() {
    let id = FunctionId::new_without_name(0, 0);
    let function = Function::new(id.clone());
    assert_eq!(function.id, id);
    assert_eq!(function.len(), 1);
}

#[test]
fn create_block() {
    let id = FunctionId::new_without_name(0, 0);
    let mut function = Function::new(id.clone());
    let block_id = function.create_block(BasicBlockType::Normal, 32).unwrap();
    assert_eq!(function.len(), 2);
    assert_eq!(function.get_basic_block_by_id(block_id).unwrap().id, block_id);
    let result = function.create_block(BasicBlockType::Entry, 0);
    assert!(result.is_err());
}

#[test]
fn get_block() {
    let id = FunctionId::new_without_name(0, 0);
    let mut function = Function::new(id.clone());
    let block_id = function.create_block(BasicBlockType::Normal, 32).unwrap();
    let block = function.get_basic_block_by_id(block_id).unwrap();
    assert_eq!(block.id, block_id);
}

#[test]
fn get_block_mut() {
    let id = FunctionId::new_without_name(0, 0);
    let mut function = Function::new(id);
    let block_id = function.create_block(BasicBlockType::Normal, 43).unwrap();
    let block = function.get_basic_block_by_id_mut(block_id).unwrap();
    block.id = BasicBlockId::new(0, BasicBlockType::Exit, 43);
    assert_eq!(block.id, BasicBlockId::new(0, BasicBlockType::Exit, 43));
}

#[test]
fn test_get_block_not_found() {
    let id = FunctionId::new_without_name(0, 0);
    let function = Function::new(id.clone());
    let result = function.get_basic_block_by_id(BasicBlockId::new(1234, BasicBlockType::Normal, 0));
    assert!(result.is_err());

    let mut function = Function::new(id.clone());
    let result = function.get_basic_block_by_id_mut(BasicBlockId::new(1234, BasicBlockType::Normal, 0));
    assert!(result.is_err());

    let result = function.get_basic_block_by_start_address(0x100);
    assert!(result.is_err());

    let result = function.get_basic_block_by_start_address_mut(0x100);
    assert!(result.is_err());
}

#[test]
fn test_get_block_by_address() {
    let id = FunctionId::new_without_name(0, 0);
    let mut function = Function::new(id.clone());
    let block_id = function.create_block(BasicBlockType::Normal, 0x100).unwrap();
    let block = function.get_basic_block_by_start_address(0x100).unwrap();
    assert_eq!(block.id, block_id);

    let block = function.get_basic_block_by_start_address_mut(0x100).unwrap();
    block.id = BasicBlockId::new(0, BasicBlockType::Exit, 0x100);
    assert_eq!(block.id, BasicBlockId::new(0, BasicBlockType::Exit, 0x100));
}

#[test]
fn test_display_function_id() {
    let id = FunctionId::new_without_name(0, 0);
    assert_eq!(id.to_string(), "Unnamed Function (Entry)");

    let id = FunctionId::new(0, Some("test".to_string()), 0);
    assert_eq!(id.to_string(), "test");
}

#[test]
fn test_into_iter_mut() {
    let id = FunctionId::new_without_name(0, 0);
    let mut function = Function::new(id.clone());
    let block_id = function.create_block(BasicBlockType::Normal, 32).unwrap();

    for block in function.blocks_mut() {
        if block.id == block_id {
            block.id = BasicBlockId::new(0, BasicBlockType::Exit, 32);
        }
    }

    let block = function.get_basic_block_by_id(block_id).unwrap();
    assert_eq!(block.id, BasicBlockId::new(0, BasicBlockType::Exit, 32));
}

#[test]
fn test_is_named() {
    let id = FunctionId::new_without_name(0, 0);
    assert!(id.is_named());

    let id = FunctionId::new(0, Some("test".to_string()), 0);
    assert!(!id.is_named());
}

#[test]
fn test_get_entry_block() {
    let id = FunctionId::new_without_name(0, 0);
    let function = Function::new(id.clone());
    let entry = function.get_entry_basic_block();
    assert_eq!(entry.id, function.get_entry_basic_block().id);
}

#[test]
fn test_get_entry_block_mut() {
    let id = FunctionId::new_without_name(0, 0);
    let mut function = Function::new(id.clone());
    let entry_id = function.get_entry_basic_block().id;
    let entry = function.get_entry_basic_block_mut();
    assert_eq!(entry.id, entry_id);
}

#[test]
fn test_add_edge() {
    let id = FunctionId::new_without_name(0, 0);
    let mut function = Function::new(id.clone());
    let block1 = function.create_block(BasicBlockType::Normal, 32).unwrap();
    let block2 = function.create_block(BasicBlockType::Normal, 32).unwrap();

    let result = function.add_edge(block1, block2);
    assert!(result.is_ok());

    let preds = function.get_predecessors(block2).unwrap();
    assert_eq!(preds.len(), 1);
    assert_eq!(preds[0], block1);

    let succs = function.get_successors(block1).unwrap();
    assert_eq!(succs.len(), 1);
    assert_eq!(succs[0], block2);

    let result = function.add_edge(BasicBlockId::new(1234, BasicBlockType::Normal, 0), block2);
    assert!(result.is_err());

    let result = function.add_edge(block1, BasicBlockId::new(1234, BasicBlockType::Normal, 0));
    assert!(result.is_err());
}

#[test]
fn function_test_basic_block_is_empty() {
    let id = FunctionId::new_without_name(0, 0);
    let function = Function::new(id.clone());
    assert!(!function.is_empty());
}

#[test]
fn test_get_predecessors() {
    let id = FunctionId::new_without_name(0, 0);
    let mut function = Function::new(id.clone());
    let block1 = function.create_block(BasicBlockType::Normal, 32).unwrap();
    let block2 = function.create_block(BasicBlockType::Normal, 32).unwrap();

    function.add_edge(block1, block2).unwrap();
    let preds = function.get_predecessors(block2).unwrap();

    assert_eq!(preds.len(), 1);
    assert_eq!(preds[0], block1);

    let result = function.get_predecessors(BasicBlockId::new(1234, BasicBlockType::Normal, 0));
    assert!(result.is_err());
}

#[test]
fn test_get_successors() {
    let id = FunctionId::new_without_name(0, 0);
    let mut function = Function::new(id.clone());
    let block1 = function.create_block(BasicBlockType::Normal, 32).unwrap();
    let block2 = function.create_block(BasicBlockType::Normal, 32).unwrap();

    function.add_edge(block1, block2).unwrap();
    let succs = function.get_successors(block1).unwrap();

    assert_eq!(succs.len(), 1);
    assert_eq!(succs[0], block2);

    let result = function.get_successors(BasicBlockId::new(1234, BasicBlockType::Normal, 0));
    assert!(result.is_err());
}

#[test]
fn test_get_entry_basic_block_id() {
    let id = FunctionId::new_without_name(0, 0);
    let function = Function::new(id.clone());
    let entry = function.get_entry_basic_block_id();
    assert_eq!(entry, function.get_entry_basic_block().id);
}

#[test]
fn function_reverse_post_order_and_clone() {
    let mut function = Function::new(FunctionId::new_without_name(0, 0));
    let entry = function.get_entry_basic_block_id();
    let b1 = function.create_block(BasicBlockType::Normal, 1).unwrap();
    let b2 = function.create_block(BasicBlockType::Normal, 2).unwrap();
    let b3 = function.create_block(BasicBlockType::Exit, 3).unwrap();
    function.add_edge(entry, b1).unwrap();
    function.add_edge(entry, b2).unwrap();
    function.add_edge(b1, b3).unwrap();
    function.add_edge(b2, b3).unwrap();
    let rpo = function.get_reverse_post_order(entry).unwrap();
    assert_eq!(rpo.len(), 4);
    assert_eq!(rpo[0], entry);
    assert_eq!(rpo[3], b3);

    let copy = function.clone();
    assert_eq!(copy.len(), 4);
    assert_eq!(copy.get_successors(entry).unwrap(), function.get_successors(entry).unwrap());
    assert_eq!(copy.get_predecessors(b3).unwrap(), vec![b2, b1]);
}

#[test]
fn function_resolve_and_edge_colors() {
    let mut function = Function::new(FunctionId::new_without_name(0, 0));
    let entry = function.get_entry_basic_block_id();
    let b1 = function.create_block(BasicBlockType::Normal, 2).unwrap();
    let b2 = function.create_block(BasicBlockType::Normal, 7).unwrap();
    function.get_basic_block_by_id_mut(entry).unwrap().add_instruction(Instruction::new(Opcode::Jeq, 1));
    function.add_edge(entry, b1).unwrap();
    function.add_edge(entry, b2).unwrap();
    assert_eq!(function.resolve(1).unwrap().id, b1);
    assert!(function.resolve(9).is_none());
    assert_eq!(function.resolve_edge_color(0, 2), "#98ff64");
    assert_eq!(function.resolve_edge_color(0, 1), "#ff6464");
}
