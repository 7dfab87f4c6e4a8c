use melior::dialect::DialectRegistry;
use melior::ir::operation::Builder;
use melior::ir::{Block, Location, Module, Region, Type, Value};
use melior::utility::register_all_dialects;
use melior::{Context, Error};

#[test]
fn block_new() {
    let mut context = Context::new();
    Block::new(&mut context, &[]);
}

#[test]
fn argument() {
    let mut context = Context::new();
    let ty = Type::new("i64");

    let block = Block::new(&mut context, &[(ty.clone(), Location::unknown())]);

    assert_eq!(
        block
            .reference()
            .argument(&context, 0)
            .unwrap()
            .value_type(&context),
        ty
    );
}

#[test]
fn argument_error() {
    let mut context = Context::new();
    let block = Block::new(&mut context, &[]);

    assert_eq!(
        block.reference().argument(&context, 0).unwrap_err(),
        Error::BlockArgumentPosition("<<UNLINKED BLOCK>>\n".into(), 0)
    );
}

#[test]
fn argument_count() {
    let mut context = Context::new();
    let block = Block::new(&mut context, &[]);

    assert_eq!(block.reference().argument_count(&context), 0);
}

#[test]
fn parent_region() {
    let mut context = Context::new();
    let region = Region::new(&mut context);
    let block = Block::new(&mut context, &[]);
    let block = region.reference().append_block(&mut context, block);

    assert_eq!(block.parent_region(&context), Some(region.reference()));
}

#[test]
fn parent_region_none() {
    let mut context = Context::new();
    let block = Block::new(&mut context, &[]);

    assert_eq!(block.reference().parent_region(&context), None);
}

#[test]
fn parent_operation() {
    let mut context = Context::new();
    let module = Module::new(&mut context, Location::unknown());

    assert_eq!(
        module.body().parent_operation(&context),
        Some(module.as_operation())
    );
}

#[test]
fn parent_operation_none() {
    let mut context = Context::new();
    let block = Block::new(&mut context, &[]);

    assert_eq!(block.reference().parent_operation(&context), None);
}

#[test]
fn terminator() {
    let mut registry = DialectRegistry::new();
    register_all_dialects(&mut registry);

    let mut context = Context::new();
    context.append_dialect_registry(&registry);
    context.load_all_available_dialects();

    let block = Block::new(&mut context, &[]);
    let block = block.reference();

    let operation = Builder::new("func.return", Location::unknown()).build(&mut context);
    let operation = block.append_operation(&mut context, operation);

    assert_eq!(block.terminator(&context), Some(operation));
}

#[test]
fn terminator_none() {
    let mut context = Context::new();
    let block = Block::new(&mut context, &[]);

    assert_eq!(block.reference().terminator(&context), None);
}

#[test]
fn terminator_not_last_kind() {
    let mut context = Context::new();
    let block = Block::new(&mut context, &[]).reference();
    let operation = Builder::new("foo", Location::unknown()).build(&mut context);
    block.append_operation(&mut context, operation);

    assert_eq!(block.terminator(&context), None);
}

#[test]
fn first_operation() {
    let mut context = Context::new();
    let block = Block::new(&mut context, &[]).reference();

    let operation = Builder::new("foo", Location::unknown()).build(&mut context);
    let operation = block.append_operation(&mut context, operation);

    assert_eq!(block.first_operation(&context), Some(operation));
}

#[test]
fn first_operation_none() {
    let mut context = Context::new();
    let block = Block::new(&mut context, &[]);

    assert_eq!(block.reference().first_operation(&context), None);
}

#[test]
fn append_operation() {
    let mut context = Context::new();
    let block = Block::new(&mut context, &[]).reference();

    let operation = Builder::new("foo", Location::unknown()).build(&mut context);
    block.append_operation(&mut context, operation);
}

#[test]
fn insert_operation() {
    let mut context = Context::new();
    let block = Block::new(&mut context, &[]).reference();

    let operation = Builder::new("foo", Location::unknown()).build(&mut context);
    block.insert_operation(&mut context, 0, operation);
}

#[test]
fn insert_operation_at_front() {
    let mut context = Context::new();
    let block = Block::new(&mut context, &[]).reference();

    let operation = Builder::new("foo", Location::unknown()).build(&mut context);
    let second = block.append_operation(&mut context, operation);
    let operation = Builder::new("bar", Location::unknown()).build(&mut context);
    let first = block.insert_operation(&mut context, 0, operation);

    assert_eq!(block.first_operation(&context), Some(first));
    assert_eq!(first.next_in_block(&context), Some(second));
    assert_eq!(second.next_in_block(&context), None);
}

#[test]
fn insert_operation_after() {
    let mut context = Context::new();
    let block = Block::new(&mut context, &[]).reference();

    let operation = Builder::new("foo", Location::unknown()).build(&mut context);
    let first_operation = block.append_operation(&mut context, operation);
    let operation = Builder::new("foo", Location::unknown()).build(&mut context);
    let second_operation = block.insert_operation_after(&mut context, first_operation, operation);

    assert_eq!(block.first_operation(&context), Some(first_operation));
    assert_eq!(
        block
            .first_operation(&context)
            .unwrap()
            .next_in_block(&context),
        Some(second_operation)
    );
}

#[test]
fn insert_operation_before() {
    let mut context = Context::new();
    let block = Block::new(&mut context, &[]).reference();

    let operation = Builder::new("foo", Location::unknown()).build(&mut context);
    let second_operation = block.append_operation(&mut context, operation);
    let operation = Builder::new("foo", Location::unknown()).build(&mut context);
    let first_operation = block.insert_operation_before(&mut context, second_operation, operation);

    assert_eq!(block.first_operation(&context), Some(first_operation));
    assert_eq!(
        block
            .first_operation(&context)
            .unwrap()
            .next_in_block(&context),
        Some(second_operation)
    );
}

#[test]
fn next_in_region() {
    let mut context = Context::new();
    let region = Region::new(&mut context).reference();

    let block = Block::new(&mut context, &[]);
    let first_block = region.append_block(&mut context, block);
    let block = Block::new(&mut context, &[]);
    let second_block = region.append_block(&mut context, block);

    assert_eq!(first_block.next_in_region(&context), Some(second_block));
    assert_eq!(second_block.next_in_region(&context), None);
}

#[test]
fn detach() {
    let mut context = Context::new();
    let region = Region::new(&mut context).reference();
    let block = Block::new(&mut context, &[]);
    let block = region.append_block(&mut context, block);

    let detached = block.detach(&mut context).unwrap();

    assert_eq!(
        detached.reference().to_string(&context),
        "<<UNLINKED BLOCK>>\n"
    );
    assert_eq!(block.parent_region(&context), None);
    assert_eq!(region.first_block(&context), None);
}

#[test]
fn detach_detached() {
    let mut context = Context::new();
    let block = Block::new(&mut context, &[]);

    assert!(block.reference().detach(&mut context).is_none());
}

#[test]
fn block_display() {
    let mut context = Context::new();
    let block = Block::new(&mut context, &[]);

    assert_eq!(block.reference().to_string(&context), "<<UNLINKED BLOCK>>\n");
}

#[test]
fn block_display_linked() {
    let mut context = Context::new();
    let region = Region::new(&mut context).reference();
    let i64_type = Type::new("i64");
    let block = Block::new(
        &mut context,
        &[
            (i64_type.clone(), Location::unknown()),
            (i64_type, Location::unknown()),
        ],
    );
    let block = region.append_block(&mut context, block);
    let operation = Builder::new("func.return", Location::unknown())
        .add_operands(&[block.argument(&context, 1).unwrap()])
        .build(&mut context);
    block.append_operation(&mut context, operation);

    assert_eq!(
        block.to_string(&context),
        "^bb(%arg0: i64, %arg1: i64):\n  \"func.return\"(%arg1) : (i64) -> ()\n"
    );
}

#[test]
fn block_debug() {
    let mut context = Context::new();
    let block = Block::new(&mut context, &[]);

    assert_eq!(
        block.reference().to_debug_string(&context),
        "BlockRef(\n<<UNLINKED BLOCK>>\n)"
    );
}

#[test]
fn add_argument() {
    let mut context = Context::new();
    let block = Block::new(&mut context, &[]).reference();

    let value = block.add_argument(&mut context, Type::new("index"), Location::unknown());

    assert_eq!(
        value,
        Value::Argument {
            block,
            position: 0
        }
    );
    assert_eq!(block.argument_count(&context), 1);
    assert_eq!(value.value_type(&context), Type::new("index"));
}
