//! End-to-end runs of the interpreter, driven by a host loop that answers
//! its float requests with real single-precision arithmetic.
use force_lang::ast::{BinaryOperation, Node, UnaryOperation};
use force_lang::errors::Error;
use force_lang::float::{FloatAnswers, FloatRequest};
use force_lang::interpreter::{evaluate, evaluate_with_steps, error_if_redeclare, RunOutcome};
use force_lang::value::Input;

/// What the host hands the evaluator for one whole reading of the input
/// channel: `None` when the bytes are not text, else the text trimmed and
/// parsed ahead of time into each kind a read may ask for.
fn host_input(bytes: &[u8]) -> Option<Input> {
    match std::str::from_utf8(bytes) {
        Ok(text) => {
            let t = text.trim();
            Some(Input {
                float: t.parse::<f32>().ok().map(f32::to_bits),
                boolean: t.parse::<bool>().ok(),
                text: t.to_string(),
            })
        }
        Err(_) => None,
    }
}

fn host_arith(op: &BinaryOperation, a: f32, b: f32) -> f32 {
    match op {
        BinaryOperation::Add => a + b,
        BinaryOperation::Subtract => a - b,
        BinaryOperation::Multiply => a * b,
        BinaryOperation::Divide => a / b,
        BinaryOperation::Exponent => a.powf(b),
        BinaryOperation::Modulus => a % b,
        _ => unreachable!(),
    }
}

fn host_compare(op: &BinaryOperation, a: f32, b: f32) -> bool {
    match op {
        BinaryOperation::Equal => a == b,
        BinaryOperation::GreaterThan => a > b,
        BinaryOperation::LessThan => a < b,
        _ => unreachable!(),
    }
}

/// Run a program to completion: re-run the evaluator, answering one float
/// request per round, until it finishes or fails.
fn run<F: Fn() -> Vec<Node>>(build: F, input_bytes: &[u8]) -> (Result<(), Error>, String) {
    let input = host_input(input_bytes);
    let mut answers = FloatAnswers::new();
    loop {
        let round = FloatAnswers {
            bits: answers.bits.clone(),
            flags: answers.flags.clone(),
            renders: answers.renders.clone(),
        };
        match evaluate(build(), input.clone(), round) {
            RunOutcome::Done(code, output) => return (code, output),
            RunOutcome::NeedFloat(req) => match req {
                FloatRequest::Arith(op, a, b) => {
                    let r = host_arith(&op, f32::from_bits(a), f32::from_bits(b));
                    answers.bits.push(r.to_bits());
                }
                FloatRequest::Compare(op, a, b) => {
                    let r = host_compare(&op, f32::from_bits(a), f32::from_bits(b));
                    answers.flags.push(r);
                }
                FloatRequest::Render(bits) => {
                    answers.renders.push(format!("{}", f32::from_bits(bits)));
                }
            },
            RunOutcome::OutOfSteps => panic!("step budget exhausted"),
        }
    }
}

#[test]
fn interpreter_hello_there() {
    let build = || {
        vec![Node::Main(vec![Node::Print(Box::new(Node::String(
            "Hello there".to_string(),
        )))])]
    };
    let (result, output) = run(build, b"");
    assert!(result.is_ok());
    assert_eq!(output, "Hello there");
}

#[test]
fn interpreter_variable() {
    let build = || {
        vec![Node::Main(vec![
            Node::DeclareFloat("jawa".to_string(), Box::new(Node::Float((-13.2f32).to_bits()))),
            Node::Print(Box::new(Node::Variable("jawa".to_string()))),
        ])]
    };
    let (result, output) = run(build, b"");
    assert!(result.is_ok());
    assert_eq!(output, "-13.2");

    let build = || {
        vec![Node::Main(vec![
            Node::DeclareString(
                "ewok".to_string(),
                Box::new(Node::String("Nub Nub".to_string())),
            ),
            Node::Print(Box::new(Node::Variable("ewok".to_string()))),
        ])]
    };
    let (result, output) = run(build, b"");
    assert!(result.is_ok());
    assert_eq!(output, "Nub Nub");

    let build = || {
        vec![Node::Main(vec![
            Node::DeclareBoolean("darkSide".to_string(), Box::new(Node::Boolean(true))),
            Node::Print(Box::new(Node::Variable("darkSide".to_string()))),
        ])]
    };
    let (result, output) = run(build, b"");
    assert!(result.is_ok());
    assert_eq!(output, "From a certain point of view.");
}

#[test]
fn interpreter_math() {
    let build = || {
        vec![Node::Main(vec![
            Node::DeclareFloat("porg".to_string(), Box::new(Node::Float(4.0f32.to_bits()))),
            Node::AssignVariable(
                "porg".to_string(),
                Box::new(Node::Variable("porg".to_string())),
                vec![
                    Node::Binary(
                        BinaryOperation::Add,
                        Box::new(Node::Float(2.0f32.to_bits())),
                    ),
                    Node::Binary(
                        BinaryOperation::Subtract,
                        Box::new(Node::Float(1.0f32.to_bits())),
                    ),
                    Node::Binary(
                        BinaryOperation::Multiply,
                        Box::new(Node::Float(3.0f32.to_bits())),
                    ),
                    Node::Binary(
                        BinaryOperation::Divide,
                        Box::new(Node::Float(5.0f32.to_bits())),
                    ),
                    Node::Binary(
                        BinaryOperation::Exponent,
                        Box::new(Node::Float(2.0f32.to_bits())),
                    ),
                    Node::Binary(
                        BinaryOperation::Modulus,
                        Box::new(Node::Float(10.0f32.to_bits())),
                    ),
                ],
            ),
            Node::Print(Box::new(Node::Variable("porg".to_string()))),
        ])]
    };
    let (result, output) = run(build, b"");
    assert!(result.is_ok());
    assert_eq!(output, "9");
}

#[test]
fn interpreter_equality() {
    let build = || {
        vec![Node::Main(vec![
            Node::DeclareFloat(
                "anakin".to_string(),
                Box::new(Node::Float(27700.0f32.to_bits())),
            ),
            Node::DeclareFloat(
                "luke".to_string(),
                Box::new(Node::Float(14500.0f32.to_bits())),
            ),
            Node::DeclareFloat(
                "leia".to_string(),
                Box::new(Node::Float(14500.0f32.to_bits())),
            ),
            Node::DeclareBoolean("midichlorian".to_string(), Box::new(Node::Boolean(false))),
            Node::AssignVariable(
                "midichlorian".to_string(),
                Box::new(Node::Variable("luke".to_string())),
                vec![Node::Binary(
                    BinaryOperation::GreaterThan,
                    Box::new(Node::Variable("anakin".to_string())),
                )],
            ),
            Node::Print(Box::new(Node::Variable("midichlorian".to_string()))),
            Node::AssignVariable(
                "midichlorian".to_string(),
                Box::new(Node::Variable("anakin".to_string())),
                vec![Node::Binary(
                    BinaryOperation::LessThan,
                    Box::new(Node::Variable("leia".to_string())),
                )],
            ),
            Node::Print(Box::new(Node::Variable("midichlorian".to_string()))),
            Node::AssignVariable(
                "midichlorian".to_string(),
                Box::new(Node::Variable("leia".to_string())),
                vec![Node::Binary(
                    BinaryOperation::Equal,
                    Box::new(Node::Variable("luke".to_string())),
                )],
            ),
            Node::Print(Box::new(Node::Variable("midichlorian".to_string()))),
        ])]
    };
    let (result, output) = run(build, b"");
    assert!(result.is_ok());
    assert_eq!(
        output,
        "That's impossible!That's impossible!From a certain point of view."
    );
}

#[test]
fn interpreter_logic() {
    let build = || {
        vec![Node::Main(vec![
            Node::DeclareBoolean("lightside".to_string(), Box::new(Node::Boolean(true))),
            Node::DeclareBoolean("darkside".to_string(), Box::new(Node::Boolean(false))),
            Node::DeclareBoolean("revan".to_string(), Box::new(Node::Boolean(false))),
            Node::AssignVariable(
                "revan".to_string(),
                Box::new(Node::Variable("lightside".to_string())),
                vec![Node::Binary(
                    BinaryOperation::Or,
                    Box::new(Node::Variable("darkside".to_string())),
                )],
            ),
            Node::Print(Box::new(Node::Variable("revan".to_string()))),
            Node::AssignVariable(
                "revan".to_string(),
                Box::new(Node::Variable("revan".to_string())),
                vec![Node::Binary(
                    BinaryOperation::And,
                    Box::new(Node::Variable("lightside".to_string())),
                )],
            ),
            Node::Print(Box::new(Node::Variable("revan".to_string()))),
            Node::AssignVariable(
                "revan".to_string(),
                Box::new(Node::Variable("revan".to_string())),
                vec![Node::Unary(UnaryOperation::Not)],
            ),
            Node::Print(Box::new(Node::Variable("revan".to_string()))),
        ])]
    };
    let (result, output) = run(build, b"");
    assert!(result.is_ok());
    assert_eq!(
        output,
        "From a certain point of view.From a certain point of view.That's impossible!"
    );
}

#[test]
fn interpreter_while_loop() {
    let build = || {
        vec![Node::Main(vec![
            Node::DeclareFloat(
                "deathStars".to_string(),
                Box::new(Node::Float(3.0f32.to_bits())),
            ),
            Node::While(
                Box::new(Node::Variable("deathStars".to_string())),
                vec![
                    Node::Print(Box::new(Node::Variable("deathStars".to_string()))),
                    Node::AssignVariable(
                        "deathStars".to_string(),
                        Box::new(Node::Variable("deathStars".to_string())),
                        vec![Node::Binary(
                            BinaryOperation::Subtract,
                            Box::new(Node::Float(1.0f32.to_bits())),
                        )],
                    ),
                ],
            ),
        ])]
    };
    let (result, output) = run(build, b"");
    assert!(result.is_ok());
    assert_eq!(output, "321");
}

#[test]
fn interpreter_for_loop() {
    let build = || {
        vec![Node::Main(vec![
            Node::DeclareFloat(
                "deadYounglings".to_string(),
                Box::new(Node::Float(0.0f32.to_bits())),
            ),
            Node::For(
                Box::new(Node::Float(10.0f32.to_bits())),
                Box::new(Node::Variable("deadYounglings".to_string())),
                vec![Node::Print(Box::new(Node::Variable(
                    "deadYounglings".to_string(),
                )))],
            ),
        ])]
    };
    let (result, output) = run(build, b"");
    assert!(result.is_ok());
    assert_eq!(output, "0123456789");
}

#[test]
fn interpreter_if_else() {
    let build = || {
        vec![Node::Main(vec![Node::If(
            Box::new(Node::Boolean(true)),
            vec![Node::Print(Box::new(Node::String("Do".to_string())))],
            vec![Node::Print(Box::new(Node::String("Don't".to_string())))],
        )])]
    };
    let (result, output) = run(build, b"");
    assert!(result.is_ok());
    assert_eq!(output, "Do");
}

#[test]
fn interpreter_functions() {
    let build = || {
        vec![
            Node::DeclareFunction(
                "NameTheSystem".to_string(),
                vec![Node::Variable("planet".to_string())],
                vec![
                    Node::Print(Box::new(Node::String("Goodbye".to_string()))),
                    Node::Print(Box::new(Node::Variable("planet".to_string()))),
                    Node::Print(Box::new(Node::String("Deathstar noise".to_string()))),
                ],
                true,
            ),
            Node::Main(vec![Node::CallFunction(
                "NameTheSystem".to_string(),
                vec![Node::String("Alderaan".to_string())],
            )]),
        ]
    };
    let (result, output) = run(build, b"");
    assert!(result.is_ok());
    assert_eq!(output, "GoodbyeAlderaanDeathstar noise");

    let build = || {
        vec![
            Node::DeclareFunction(
                "TheOdds".to_string(),
                vec![Node::Variable("odds".to_string())],
                vec![
                    Node::DeclareBoolean("survive".to_string(), Box::new(Node::Boolean(false))),
                    Node::AssignVariable(
                        "survive".to_string(),
                        Box::new(Node::Variable("odds".to_string())),
                        vec![
                            Node::Binary(
                                BinaryOperation::Modulus,
                                Box::new(Node::Float(3720.0f32.to_bits())),
                            ),
                            Node::Binary(
                                BinaryOperation::Equal,
                                Box::new(Node::Float(0.0f32.to_bits())),
                            ),
                        ],
                    ),
                    Node::Return(Box::new(Node::Variable("survive".to_string()))),
                ],
                false,
            ),
            Node::Main(vec![
                Node::DeclareBoolean("survive".to_string(), Box::new(Node::Boolean(false))),
                Node::AssignVariable(
                    "survive".to_string(),
                    Box::new(Node::CallFunction(
                        "TheOdds".to_string(),
                        vec![Node::Float(52.0f32.to_bits())],
                    )),
                    vec![],
                ),
                Node::Print(Box::new(Node::Variable("survive".to_string()))),
            ]),
        ]
    };
    let (result, output) = run(build, b"");
    assert!(result.is_ok());
    assert_eq!(output, "That's impossible!");
}

#[test]
fn interpreter_input() {
    let build = || {
        vec![Node::Main(vec![
            Node::DeclareFloat("jawa".to_string(), Box::new(Node::Float(0.0f32.to_bits()))),
            Node::ReadFloat(Box::new(Node::Variable("jawa".to_string()))),
            Node::Print(Box::new(Node::Variable("jawa".to_string()))),
        ])]
    };
    let (result, output) = run(build, b"3.14");
    assert!(result.is_ok());
    assert_eq!(output, "3.14");

    let build = || {
        vec![Node::Main(vec![
            Node::DeclareString("ewok".to_string(), Box::new(Node::String("".to_string()))),
            Node::ReadString(Box::new(Node::Variable("ewok".to_string()))),
            Node::Print(Box::new(Node::Variable("ewok".to_string()))),
        ])]
    };
    let (result, output) = run(build, b"Wicket");
    assert!(result.is_ok());
    assert_eq!(output, "Wicket");

    let build = || {
        vec![Node::Main(vec![
            Node::DeclareBoolean("darkSide".to_string(), Box::new(Node::Boolean(true))),
            Node::ReadBoolean(Box::new(Node::Variable("darkSide".to_string()))),
            Node::Print(Box::new(Node::Variable("darkSide".to_string()))),
        ])]
    };
    let (result, output) = run(build, b"false");
    assert!(result.is_ok());
    assert_eq!(output, "That's impossible!");
}

#[test]
fn type_change() {
    let build = || {
        vec![Node::Main(vec![
            Node::DeclareFloat("jarjar".to_string(), Box::new(Node::Float(0.0f32.to_bits()))),
            Node::AssignVariable(
                "jarjar".to_string(),
                Box::new(Node::Variable("jarjar".to_string())),
                vec![Node::Binary(
                    BinaryOperation::Equal,
                    Box::new(Node::Float(1.0f32.to_bits())),
                )],
            ),
        ])]
    };
    let (result, _output) = run(build, b"");
    assert!(result.is_err());

    let build = || {
        vec![Node::Main(vec![
            Node::DeclareFloat("jarjar".to_string(), Box::new(Node::Float(0.0f32.to_bits()))),
            Node::DeclareFloat("jarjar".to_string(), Box::new(Node::Float(1.0f32.to_bits()))),
        ])]
    };
    let (result, _output) = run(build, b"");
    assert!(result.is_err());
}

#[test]
fn interpreter_other() {
    let build = || vec![Node::Main(Vec::new())];
    let (result, output) = run(build, b"");
    assert!(result.is_ok());
    assert_eq!(output, "");

    let build = || vec![];
    let (result, output) = run(build, b"");
    assert!(result.is_ok());
    assert_eq!(output, "");
}

// ---------------------------------------------------------------------
// Further runs: one per error kind, the edges of the read protocol, and
// the laws on concrete programs.

#[test]
fn redeclaration_same_kind_is_redeclaration_error() {
    let build = || {
        vec![Node::Main(vec![
            Node::DeclareFloat("r2".to_string(), Box::new(Node::Float(1.0f32.to_bits()))),
            Node::DeclareFloat("r2".to_string(), Box::new(Node::Float(2.0f32.to_bits()))),
        ])]
    };
    let (result, _) = run(build, b"");
    assert_eq!(result, Err(Error::Redeclaration));
}

#[test]
fn redeclaration_other_kind_is_type_error() {
    let build = || {
        vec![Node::Main(vec![
            Node::DeclareFloat("r2".to_string(), Box::new(Node::Float(1.0f32.to_bits()))),
            Node::DeclareBoolean("r2".to_string(), Box::new(Node::Boolean(true))),
        ])]
    };
    let (result, _) = run(build, b"");
    assert_eq!(result, Err(Error::TypeMismatch));
}

#[test]
fn arity_mismatch_fails_before_the_body() {
    let build = || {
        vec![
            Node::DeclareFunction(
                "Echo".to_string(),
                vec![Node::Variable("word".to_string())],
                vec![Node::Print(Box::new(Node::String("ran".to_string())))],
                true,
            ),
            Node::Main(vec![Node::CallFunction("Echo".to_string(), vec![])]),
        ]
    };
    let (result, output) = run(build, b"");
    assert_eq!(result, Err(Error::ArityMismatch));
    assert_eq!(output, "");
}

#[test]
fn void_call_prints_and_leaves_no_value() {
    let build = || {
        vec![
            Node::DeclareFunction(
                "Holler".to_string(),
                vec![],
                vec![Node::Print(Box::new(Node::String("noise".to_string())))],
                true,
            ),
            Node::Main(vec![
                Node::CallFunction("Holler".to_string(), vec![]),
                Node::CallFunction("Holler".to_string(), vec![]),
            ]),
        ]
    };
    let (result, output) = run(build, b"");
    assert!(result.is_ok());
    assert_eq!(output, "noisenoise");
}

#[test]
fn nonvoid_call_yields_its_accumulator() {
    let build = || {
        vec![
            Node::DeclareFunction(
                "Five".to_string(),
                vec![],
                vec![Node::Return(Box::new(Node::Float(5.0f32.to_bits())))],
                false,
            ),
            Node::Main(vec![
                Node::DeclareFloat("n".to_string(), Box::new(Node::Float(0.0f32.to_bits()))),
                Node::AssignVariable(
                    "n".to_string(),
                    Box::new(Node::CallFunction("Five".to_string(), vec![])),
                    vec![],
                ),
                Node::Print(Box::new(Node::Variable("n".to_string()))),
            ]),
        ]
    };
    let (result, output) = run(build, b"");
    assert!(result.is_ok());
    assert_eq!(output, "5");
}

#[test]
fn undefined_variable_fails() {
    let build = || vec![Node::Main(vec![Node::Print(Box::new(Node::Variable("ghost".to_string())))])];
    let (result, _) = run(build, b"");
    assert_eq!(result, Err(Error::UndefinedVariable));
}

#[test]
fn undefined_function_fails() {
    let build = || vec![Node::Main(vec![Node::CallFunction("Order66".to_string(), vec![])])];
    let (result, _) = run(build, b"");
    assert_eq!(result, Err(Error::UndefinedFunction));
}

#[test]
fn malformed_chain_entry_aborts_the_assignment() {
    let build = || {
        vec![Node::Main(vec![
            Node::DeclareFloat("n".to_string(), Box::new(Node::Float(1.0f32.to_bits()))),
            Node::AssignVariable(
                "n".to_string(),
                Box::new(Node::Variable("n".to_string())),
                vec![Node::Noop],
            ),
        ])]
    };
    let (result, _) = run(build, b"");
    assert_eq!(result, Err(Error::InvalidOperation));
}

#[test]
fn failing_chain_operation_aborts_the_assignment() {
    // The chain's operand is a boolean while the accumulator is a float:
    // the assignment must fail rather than store the untouched initial.
    let build = || {
        vec![Node::Main(vec![
            Node::DeclareFloat("n".to_string(), Box::new(Node::Float(1.0f32.to_bits()))),
            Node::AssignVariable(
                "n".to_string(),
                Box::new(Node::Variable("n".to_string())),
                vec![Node::Binary(BinaryOperation::Add, Box::new(Node::Boolean(true)))],
            ),
        ])]
    };
    let (result, _) = run(build, b"");
    assert_eq!(result, Err(Error::TypeMismatch));
}

#[test]
fn unreadable_input_is_an_io_error() {
    let build = || {
        vec![Node::Main(vec![
            Node::DeclareString("s".to_string(), Box::new(Node::String("".to_string()))),
            Node::ReadString(Box::new(Node::Variable("s".to_string()))),
        ])]
    };
    let (result, _) = run(build, b"\xff\xfe\xfd");
    assert_eq!(result, Err(Error::IOError));
}

#[test]
fn unparsable_float_input_fails() {
    let build = || {
        vec![Node::Main(vec![
            Node::DeclareFloat("n".to_string(), Box::new(Node::Float(0.0f32.to_bits()))),
            Node::ReadFloat(Box::new(Node::Variable("n".to_string()))),
        ])]
    };
    let (result, _) = run(build, b"porg");
    assert_eq!(result, Err(Error::ParseInputError));
}

#[test]
fn unparsable_boolean_input_fails() {
    let build = || {
        vec![Node::Main(vec![
            Node::DeclareBoolean("b".to_string(), Box::new(Node::Boolean(false))),
            Node::ReadBoolean(Box::new(Node::Variable("b".to_string()))),
        ])]
    };
    let (result, _) = run(build, b"3.14");
    assert_eq!(result, Err(Error::ParseInputError));
}

#[test]
fn input_is_read_whole_and_once() {
    // The first read takes the entire channel; a later read sees it
    // drained, and empty text stored as the string value.
    let build = || {
        vec![Node::Main(vec![
            Node::DeclareString("a".to_string(), Box::new(Node::String("".to_string()))),
            Node::DeclareString("b".to_string(), Box::new(Node::String("x".to_string()))),
            Node::ReadString(Box::new(Node::Variable("a".to_string()))),
            Node::ReadString(Box::new(Node::Variable("b".to_string()))),
            Node::Print(Box::new(Node::Variable("a".to_string()))),
            Node::Print(Box::new(Node::String("|".to_string()))),
            Node::Print(Box::new(Node::Variable("b".to_string()))),
        ])]
    };
    let (result, output) = run(build, b"  Wicket  ");
    assert!(result.is_ok());
    assert_eq!(output, "Wicket|");
}

#[test]
fn string_equality_compares_contents() {
    let build = || {
        vec![Node::Main(vec![
            Node::DeclareString("a".to_string(), Box::new(Node::String("Nub Nub".to_string()))),
            Node::DeclareBoolean("same".to_string(), Box::new(Node::Boolean(false))),
            Node::AssignVariable(
                "same".to_string(),
                Box::new(Node::Variable("a".to_string())),
                vec![Node::Binary(
                    BinaryOperation::Equal,
                    Box::new(Node::String("Nub Nub".to_string())),
                )],
            ),
            Node::Print(Box::new(Node::Variable("same".to_string()))),
        ])]
    };
    let (result, output) = run(build, b"");
    assert!(result.is_ok());
    assert_eq!(output, "From a certain point of view.");
}

#[test]
fn while_over_a_boolean_variable_stops_when_false() {
    let build = || {
        vec![Node::Main(vec![
            Node::DeclareBoolean("go".to_string(), Box::new(Node::Boolean(true))),
            Node::While(
                Box::new(Node::Variable("go".to_string())),
                vec![
                    Node::Print(Box::new(Node::String("once".to_string()))),
                    Node::AssignVariable(
                        "go".to_string(),
                        Box::new(Node::Variable("go".to_string())),
                        vec![Node::Unary(UnaryOperation::Not)],
                    ),
                ],
            ),
        ])]
    };
    let (result, output) = run(build, b"");
    assert!(result.is_ok());
    assert_eq!(output, "once");
}

#[test]
fn branch_condition_must_be_boolean() {
    let build = || {
        vec![Node::Main(vec![Node::If(
            Box::new(Node::Float(1.0f32.to_bits())),
            vec![],
            vec![],
        )])]
    };
    let (result, _) = run(build, b"");
    assert_eq!(result, Err(Error::TypeMismatch));
}

#[test]
fn first_float_request_surfaces_unanswered() {
    let ast = vec![Node::Main(vec![
        Node::DeclareFloat("n".to_string(), Box::new(Node::Float(4.0f32.to_bits()))),
        Node::AssignVariable(
            "n".to_string(),
            Box::new(Node::Variable("n".to_string())),
            vec![Node::Binary(
                BinaryOperation::Add,
                Box::new(Node::Float(2.0f32.to_bits())),
            )],
        ),
    ])];
    let outcome = evaluate(ast, host_input(b""), FloatAnswers::new());
    match outcome {
        RunOutcome::NeedFloat(FloatRequest::Arith(BinaryOperation::Add, a, b)) => {
            assert_eq!(f32::from_bits(a), 4.0);
            assert_eq!(f32::from_bits(b), 2.0);
        }
        other => panic!("expected an arithmetic request, got {:?}", other),
    }
}

#[test]
fn endless_loop_exhausts_the_step_budget() {
    let ast = vec![Node::Main(vec![
        Node::DeclareBoolean("go".to_string(), Box::new(Node::Boolean(true))),
        Node::While(Box::new(Node::Variable("go".to_string())), vec![]),
    ])];
    let outcome = evaluate_with_steps(ast, host_input(b""), FloatAnswers::new(), 1000);
    assert!(matches!(outcome, RunOutcome::OutOfSteps));
}

#[test]
fn error_if_redeclare_maps_each_report() {
    assert_eq!(error_if_redeclare(Ok(true)), Ok(()));
    assert_eq!(error_if_redeclare(Ok(false)), Err(Error::Redeclaration));
    assert_eq!(
        error_if_redeclare(Err(Error::TypeMismatch)),
        Err(Error::TypeMismatch)
    );
}

#[test]
fn errors_describe_themselves() {
    assert_eq!(Error::Redeclaration.describe(), "Cannot redeclare a variable");
    assert_eq!(Error::UndefinedVariable.describe(), "No variable found");
}
