use melior::ir::operation::Builder;
use melior::ir::{Attribute, Block, Identifier, Location, Region, Type, Value};
use melior::{Context, Error};

#[test]
fn operation_new() {
    let mut context = Context::new();
    Builder::new("foo", Location::unknown()).build(&mut context);
}

#[test]
fn name() {
    let mut context = Context::new();
    let operation = Builder::new("foo", Location::unknown()).build(&mut context);

    assert_eq!(
        operation.reference().name(&context),
        Identifier::new("foo")
    );
}

#[test]
fn block() {
    let mut context = Context::new();
    let block = Block::new(&mut context, &[]).reference();
    let operation = Builder::new("foo", Location::unknown()).build(&mut context);
    let operation = block.append_operation(&mut context, operation);

    assert_eq!(operation.block(&context), Some(block));
}

#[test]
fn block_none() {
    let mut context = Context::new();
    let operation = Builder::new("foo", Location::unknown()).build(&mut context);

    assert_eq!(operation.reference().block(&context), None);
}

#[test]
fn result_error() {
    let mut context = Context::new();
    let operation = Builder::new("foo", Location::unknown()).build(&mut context);

    assert_eq!(
        operation.reference().result(&context, 0).unwrap_err(),
        Error::OperationResultPosition("\"foo\"() : () -> ()\n".into(), 0)
    );
}

#[test]
fn result() {
    let mut context = Context::new();
    let operation = Builder::new("foo", Location::unknown())
        .add_results(&[Type::new("i1"), Type::new("i8")])
        .build(&mut context);
    let operation = operation.reference();

    assert_eq!(operation.result_count(&context), 2);
    assert_eq!(
        operation.result(&context, 1),
        Ok(Value::Result {
            operation,
            position: 1
        })
    );
    assert_eq!(
        operation.result(&context, 1).unwrap().value_type(&context),
        Type::new("i8")
    );
    assert_eq!(
        operation.result(&context, 2),
        Err(Error::OperationResultPosition(
            "\"foo\"() : () -> (i1, i8)\n".into(),
            2
        ))
    );
}

#[test]
fn region_none() {
    let mut context = Context::new();
    let operation = Builder::new("foo", Location::unknown()).build(&mut context);

    assert!(operation.reference().region(&context, 0).is_none());
}

#[test]
fn region_some() {
    let mut context = Context::new();
    let region = Region::new(&mut context);
    let handle = region.reference();
    let operation = Builder::new("foo", Location::unknown())
        .add_regions(vec![region])
        .build(&mut context);
    let operation = operation.reference();

    assert_eq!(operation.region_count(&context), 1);
    assert_eq!(operation.region(&context, 0), Some(handle));
    assert_eq!(operation.region(&context, 1), None);
    assert_eq!(handle.parent_operation(&context), Some(operation));
}

#[test]
fn operation_display() {
    let mut context = Context::new();
    let operation = Builder::new("foo", Location::unknown()).build(&mut context);

    assert_eq!(
        operation.reference().to_string(&context),
        "\"foo\"() : () -> ()\n"
    );
}

#[test]
fn operation_display_attributes() {
    let mut context = Context::new();
    let block = Block::new(&mut context, &[(Type::new("i64"), Location::unknown())]).reference();
    let operation = Builder::new("arith.constant", Location::unknown())
        .add_results(&[Type::new("index")])
        .add_attributes(&[(Identifier::new("value"), Attribute::new("0 : index"))])
        .build(&mut context);
    let constant = block.append_operation(&mut context, operation);
    let operation = Builder::new("bar", Location::unknown())
        .add_operands(&[
            block.argument(&context, 0).unwrap(),
            constant.result(&context, 0).unwrap(),
        ])
        .build(&mut context);

    assert_eq!(
        constant.to_string(&context),
        "\"arith.constant\"() {value = 0 : index} : () -> index\n"
    );
    assert_eq!(
        operation.reference().to_string(&context),
        format!(
            "\"bar\"(%arg0, %{}) : (i64, index) -> ()\n",
            "0#0"
        )
    );
}

#[test]
fn operation_debug() {
    let mut context = Context::new();
    let operation = Builder::new("foo", Location::unknown()).build(&mut context);

    assert_eq!(
        operation.reference().to_debug_string(&context),
        "OperationRef(\n\"foo\"() : () -> ()\n)"
    );
}

#[test]
fn decimal() {
    assert_eq!(melior::print::decimal_string(0), "0");
    assert_eq!(melior::print::decimal_string(7), "7");
    assert_eq!(melior::print::decimal_string(1024), "1024");
}

#[test]
fn join() {
    let items = vec!["a".to_string(), "bc".to_string(), "d".to_string()];
    assert_eq!(melior::print::join_strings(&items, ", "), "a, bc, d");
    assert_eq!(melior::print::join_strings(&Vec::new(), ", "), "");
}

#[test]
fn to_owned() {
    let mut context = Context::new();
    let operation = Builder::new("foo", Location::unknown()).build(&mut context);

    operation.reference().to_owned(&mut context);
}

#[test]
fn to_owned_is_deep() {
    let mut context = Context::new();
    let region = Region::new(&mut context);
    let block = Block::new(&mut context, &[(Type::new("i64"), Location::unknown())]);
    let block_ref = block.reference();
    let inner = Builder::new("func.return", Location::unknown())
        .add_operands(&[block_ref.argument(&context, 0).unwrap()])
        .build(&mut context);
    block_ref.append_operation(&mut context, inner);
    region.reference().append_block(&mut context, block);
    let original = Builder::new("func.func", Location::unknown())
        .add_attributes(&[(Identifier::new("sym_name"), Attribute::new("\"f\""))])
        .add_regions(vec![region])
        .build(&mut context)
        .reference();

    let copy = original.to_owned(&mut context).reference();

    assert_ne!(copy, original);
    assert_eq!(copy.block(&context), None);
    assert_eq!(copy.region_count(&context), 1);
    assert_ne!(copy.region(&context, 0), original.region(&context, 0));
    let copied_block = copy.region(&context, 0).unwrap().first_block(&context).unwrap();
    assert_ne!(copied_block, block_ref);
    assert_eq!(copied_block.argument_count(&context), 1);
    assert_eq!(
        copied_block.first_operation(&context).unwrap().name(&context),
        Identifier::new("func.return")
    );
    assert_eq!(
        copied_block.first_operation(&context).unwrap().operand(&context, 0),
        Some(Value::Argument {
            block: copied_block,
            position: 0
        })
    );
    assert_eq!(
        block_ref.first_operation(&context).unwrap().operand(&context, 0),
        Some(Value::Argument {
            block: block_ref,
            position: 0
        })
    );
    assert_eq!(copy.to_string(&context), original.to_string(&context));
    assert_eq!(block_ref.parent_region(&context), original.region(&context, 0));
}
