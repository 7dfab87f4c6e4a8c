use melior::ir::operation::Builder;
use melior::ir::{Block, Location, Module, Region, Type};
use melior::Context;

#[test]
fn arguments_of_new_block() {
    let mut context = Context::new();
    for n in 0..4usize {
        let arguments: Vec<(Type, Location)> =
            (0..n).map(|_| (Type::new("i32"), Location::unknown())).collect();
        let block = Block::new(&mut context, &arguments).reference();

        assert_eq!(block.argument_count(&context), n);
        for i in 0..n {
            assert!(block.argument(&context, i).is_ok());
        }
        assert!(block.argument(&context, n).is_err());
        assert!(block.argument(&context, n + 5).is_err());
    }
}

#[test]
fn new_objects_have_no_parents() {
    let mut context = Context::new();
    let block = Block::new(&mut context, &[]).reference();
    let operation = Builder::new("foo", Location::unknown()).build(&mut context);

    assert_eq!(block.parent_region(&context), None);
    assert_eq!(block.parent_operation(&context), None);
    assert_eq!(operation.reference().block(&context), None);
}

#[test]
fn references_compare_by_object() {
    let mut context = Context::new();
    let block = Block::new(&mut context, &[]).reference();
    let operation = Builder::new("foo", Location::unknown()).build(&mut context);
    let first = block.append_operation(&mut context, operation);
    let operation = Builder::new("foo", Location::unknown()).build(&mut context);
    let second = block.append_operation(&mut context, operation);

    assert_eq!(block.first_operation(&context), block.first_operation(&context));
    assert_eq!(block.first_operation(&context), Some(first));
    assert_ne!(first, second);
    assert_eq!(first.to_string(&context), second.to_string(&context));
}

#[test]
fn builder_round_trip() {
    let mut context = Context::new();
    let block = Block::new(&mut context, &[(Type::new("i64"), Location::unknown())]).reference();
    let operand = block.argument(&context, 0).unwrap();
    let operation = Builder::new("test.op", Location::unknown())
        .add_operands(&[operand, operand])
        .add_results(&[Type::new("i64"), Type::new("i1"), Type::new("f32")])
        .build(&mut context);
    let operation = block.append_operation(&mut context, operation);

    assert_eq!(operation.name(&context).as_str(), "test.op");
    assert_eq!(operation.operand_count(&context), 2);
    assert_eq!(operation.result_count(&context), 3);
    assert_eq!(operation.block(&context), Some(block));
}

#[test]
fn empty_module_verifies() {
    let mut context = Context::new();
    let module = Module::new(&mut context, Location::unknown());

    assert!(module.as_operation().verify(&context));
    assert_eq!(module.body().first_operation(&context), None);
    assert_eq!(module.body().parent_operation(&context), Some(module.as_operation()));
}

#[test]
fn detach_then_reattach() {
    let mut context = Context::new();
    let first = Region::new(&mut context).reference();
    let second = Region::new(&mut context).reference();
    let block = Block::new(&mut context, &[]);
    let block = first.append_block(&mut context, block);

    let owned = block.detach(&mut context).unwrap();
    assert_eq!(block.parent_region(&context), None);
    assert!(block.detach(&mut context).is_none());

    let again = second.append_block(&mut context, owned);
    assert_eq!(again, block);
    assert_eq!(block.parent_region(&context), Some(second));
    assert_eq!(second.first_block(&context), Some(block));
    assert_eq!(first.first_block(&context), None);
}
