use melior::dialect::DialectRegistry;
use melior::ir::operation::Builder;
use melior::ir::{Attribute, Block, Identifier, Location, Module, Region, Type};
use melior::utility::register_all_dialects;
use melior::Context;

#[test]
fn build_module() {
    let mut context = Context::new();
    let module = Module::new(&mut context, Location::unknown());

    assert!(module.as_operation().verify(&context));
    assert_eq!(module.body().first_operation(&context), None);
    assert_eq!(
        module.as_operation().to_string(&context),
        "\"builtin.module\"() ({\n^bb():\n}) : () -> ()\n"
    );
}

#[test]
fn build_module_with_dialect() {
    let registry = DialectRegistry::new();
    let mut context = Context::new();
    context.append_dialect_registry(&registry);
    let module = Module::new(&mut context, Location::unknown());

    assert!(module.as_operation().verify(&context));
    assert_eq!(
        module.as_operation().to_string(&context),
        "\"builtin.module\"() ({\n^bb():\n}) : () -> ()\n"
    );
}

#[test]
fn build_add() {
    let mut registry = DialectRegistry::new();
    register_all_dialects(&mut registry);

    let mut context = Context::new();
    context.append_dialect_registry(&registry);
    assert!(context.get_or_load_dialect("func"));

    let location = Location::unknown();
    let module = Module::new(&mut context, location.clone());

    let integer_type = Type::new("i64");

    let function = {
        let region = Region::new(&mut context);
        let block = Block::new(
            &mut context,
            &[
                (integer_type.clone(), location.clone()),
                (integer_type.clone(), location.clone()),
            ],
        );
        let block_ref = block.reference();

        let operation = Builder::new("arith.addi", location.clone())
            .add_operands(&[
                block_ref.argument(&context, 0).unwrap(),
                block_ref.argument(&context, 1).unwrap(),
            ])
            .add_results(&[integer_type.clone()])
            .build(&mut context);
        let sum = block_ref.append_operation(&mut context, operation);

        let operation = Builder::new("func.return", Location::unknown())
            .add_operands(&[sum.result(&context, 0).unwrap()])
            .build(&mut context);
        block_ref.append_operation(&mut context, operation);

        region.reference().append_block(&mut context, block);

        Builder::new("func.func", Location::unknown())
            .add_attributes(&[
                (
                    Identifier::new("function_type"),
                    Attribute::new("(i64, i64) -> i64"),
                ),
                (Identifier::new("sym_name"), Attribute::new("\"add\"")),
            ])
            .add_regions(vec![region])
            .build(&mut context)
    };

    module.body().append_operation(&mut context, function);

    assert!(module.as_operation().verify(&context));
    let text = module.as_operation().to_string(&context);
    assert!(text.contains("sym_name = \"add\""));
    assert!(text.contains("\"arith.addi\"(%arg0, %arg1) : (i64, i64) -> i64"));
    assert!(text.contains("function_type = (i64, i64) -> i64"));
}

#[test]
fn build_sum() {
    let mut registry = DialectRegistry::new();
    register_all_dialects(&mut registry);

    let mut context = Context::new();
    context.append_dialect_registry(&registry);
    assert!(context.get_or_load_dialect("func"));
    assert!(context.get_or_load_dialect("memref"));
    assert!(context.get_or_load_dialect("scf"));

    let location = Location::unknown();
    let module = Module::new(&mut context, location.clone());

    let memref_type = Type::new("memref<?xf32>");

    let function = {
        let function_region = Region::new(&mut context);
        let function_block = Block::new(
            &mut context,
            &[
                (memref_type.clone(), location.clone()),
                (memref_type.clone(), location.clone()),
            ],
        );
        let function_block_ref = function_block.reference();
        let index_type = Type::new("index");

        let operation = Builder::new("arith.constant", location.clone())
            .add_results(&[index_type.clone()])
            .add_attributes(&[(Identifier::new("value"), Attribute::new("0 : index"))])
            .build(&mut context);
        let zero = function_block_ref.append_operation(&mut context, operation);

        let operation = Builder::new("memref.dim", location.clone())
            .add_operands(&[
                function_block_ref.argument(&context, 0).unwrap(),
                zero.result(&context, 0).unwrap(),
            ])
            .add_results(&[index_type.clone()])
            .build(&mut context);
        let dim = function_block_ref.append_operation(&mut context, operation);

        let loop_block = Block::new(&mut context, &[]);
        let loop_block_ref = loop_block.reference();
        loop_block_ref.add_argument(&mut context, index_type.clone(), location.clone());

        let operation = Builder::new("arith.constant", location.clone())
            .add_results(&[index_type.clone()])
            .add_attributes(&[(Identifier::new("value"), Attribute::new("1 : index"))])
            .build(&mut context);
        let one = function_block_ref.append_operation(&mut context, operation);

        {
            let f32_type = Type::new("f32");

            let operation = Builder::new("memref.load", location.clone())
                .add_operands(&[
                    function_block_ref.argument(&context, 0).unwrap(),
                    loop_block_ref.argument(&context, 0).unwrap(),
                ])
                .add_results(&[f32_type.clone()])
                .build(&mut context);
            let lhs = loop_block_ref.append_operation(&mut context, operation);

            let operation = Builder::new("memref.load", location.clone())
                .add_operands(&[
                    function_block_ref.argument(&context, 1).unwrap(),
                    loop_block_ref.argument(&context, 0).unwrap(),
                ])
                .add_results(&[f32_type.clone()])
                .build(&mut context);
            let rhs = loop_block_ref.append_operation(&mut context, operation);

            let operation = Builder::new("arith.addf", location.clone())
                .add_operands(&[
                    lhs.result(&context, 0).unwrap(),
                    rhs.result(&context, 0).unwrap(),
                ])
                .add_results(&[f32_type.clone()])
                .build(&mut context);
            let add = loop_block_ref.append_operation(&mut context, operation);

            let operation = Builder::new("memref.store", location.clone())
                .add_operands(&[
                    add.result(&context, 0).unwrap(),
                    function_block_ref.argument(&context, 0).unwrap(),
                    loop_block_ref.argument(&context, 0).unwrap(),
                ])
                .build(&mut context);
            loop_block_ref.append_operation(&mut context, operation);

            let operation = Builder::new("scf.yield", location.clone()).build(&mut context);
            loop_block_ref.append_operation(&mut context, operation);
        }

        let operation = {
            let loop_region = Region::new(&mut context);

            loop_region.reference().append_block(&mut context, loop_block);

            Builder::new("scf.for", location.clone())
                .add_operands(&[
                    zero.result(&context, 0).unwrap(),
                    dim.result(&context, 0).unwrap(),
                    one.result(&context, 0).unwrap(),
                ])
                .add_regions(vec![loop_region])
        }
        .build(&mut context);
        function_block_ref.append_operation(&mut context, operation);

        let operation = Builder::new("func.return", Location::unknown()).build(&mut context);
        function_block_ref.append_operation(&mut context, operation);

        function_region
            .reference()
            .append_block(&mut context, function_block);

        Builder::new("func.func", Location::unknown())
            .add_attributes(&[
                (
                    Identifier::new("function_type"),
                    Attribute::new("(memref<?xf32>, memref<?xf32>) -> ()"),
                ),
                (Identifier::new("sym_name"), Attribute::new("\"sum\"")),
            ])
            .add_regions(vec![function_region])
            .build(&mut context)
    };

    module.body().append_operation(&mut context, function);

    assert!(module.as_operation().verify(&context));
    let text = module.as_operation().to_string(&context);
    assert!(text.contains("sym_name = \"sum\""));
    assert!(text.contains("\"scf.yield\"() : () -> ()"));
    assert!(text.contains("function_type = (memref<?xf32>, memref<?xf32>) -> ()"));
}

#[test]
fn verify_rejects_missing_terminator() {
    let mut context = Context::new();
    let module = Module::new(&mut context, Location::unknown());
    let region = Region::new(&mut context);
    let block = Block::new(&mut context, &[]);
    region.reference().append_block(&mut context, block);
    let function = Builder::new("func.func", Location::unknown())
        .add_regions(vec![region])
        .build(&mut context);
    module.body().append_operation(&mut context, function);

    assert!(!module.as_operation().verify(&context));
}

#[test]
fn verify_rejects_undefined_operand() {
    let mut context = Context::new();
    let module = Module::new(&mut context, Location::unknown());
    let block = Block::new(&mut context, &[]).reference();
    let operation = Builder::new("foo", Location::unknown())
        .add_operands(&[melior::ir::Value::Argument { block, position: 3 }])
        .build(&mut context);
    module.body().append_operation(&mut context, operation);

    assert!(!module.as_operation().verify(&context));
}
