use coyote::error::{check_var_string, PreprocessError};
use coyote::recipe::{Command, CoyoteJson, Executable};
use coyote::shell::command_words;
use coyote::resolve::Resolver;
use coyote::table::VariableTable;
use coyote::template::{assemble, patch_string, patch_variable_references, Piece};

fn s(x: &str) -> String {
    x.to_string()
}

fn table(pairs: &[(&str, &str)]) -> VariableTable {
    let mut t = VariableTable::new();
    for (k, v) in pairs {
        t.insert(s(k), s(v));
    }
    t
}

fn resolve(pairs: &[(&str, &str)]) -> Result<Resolver, PreprocessError> {
    let mut r = Resolver::new(pairs.iter().map(|(k, v)| (s(k), s(v))).collect());
    while !r.is_done() {
        let pieces = r.pending()?;
        let outputs: Vec<String> = pieces.iter().map(|_| String::new()).collect();
        r.define(&outputs);
    }
    Ok(r)
}

#[test]
fn literal_strings_are_unchanged() {
    let t = table(&[("a", "1"), ("refs", "x")]);
    assert_eq!(patch_variable_references(&s("no refs here"), &t), Ok(s("no refs here")));
    assert_eq!(patch_variable_references(&s("no refs here"), &VariableTable::new()), Ok(s("no refs here")));
}

#[test]
fn variables_resolve_in_declaration_order() {
    let r = resolve(&[("a", "1"), ("b", "{a}2")]).ok().unwrap();
    let t = r.table();
    assert_eq!(t.get(&s("a")), Some(&s("1")));
    assert_eq!(t.get(&s("b")), Some(&s("12")));
    assert_eq!(t.get(&s("c")), None);
}

#[test]
fn forward_and_self_references_are_undefined() {
    match resolve(&[("a", "{b}"), ("b", "1")]) {
        Err(PreprocessError::UndefinedVariable { key, name }) => {
            assert_eq!(key, "a");
            assert_eq!(name, "b");
        }
        _ => panic!("expected an undefined reference"),
    }
    match resolve(&[("a", "x{a}")]) {
        Err(PreprocessError::UndefinedVariable { key, name }) => {
            assert_eq!(key, "a");
            assert_eq!(name, "a");
        }
        _ => panic!("expected an undefined reference"),
    }
}

#[test]
fn resolver_puts_command_output_in_place() {
    let mut r = Resolver::new(vec![(s("v"), s("x`git describe`y")), (s("w"), s("{v}!"))]);
    let pieces = r.pending().ok().unwrap();
    assert_eq!(pieces.len(), 3);
    assert!(matches!(&pieces[1], Piece::Command(c) if c == "git describe"));
    r.define(&vec![s(""), s("1.2\n"), s("")]);
    assert!(!r.is_done());
    r.define(&vec![s("")]);
    assert!(r.is_done());
    assert_eq!(r.table().get(&s("v")), Some(&s("x1.2\ny")));
    assert_eq!(r.table().get(&s("w")), Some(&s("x1.2\ny!")));
}

#[test]
fn undefined_reference_names_the_variable() {
    assert_eq!(patch_variable_references(&s("{x}"), &VariableTable::new()), Err(s("x")));
}

#[test]
fn second_brace_escapes() {
    assert_eq!(patch_variable_references(&s("{{abc}"), &VariableTable::new()), Ok(s("{abc}")));
}

#[test]
fn references_are_replaced() {
    let t = table(&[("b", "XY"), ("dir", "build")]);
    assert_eq!(patch_variable_references(&s("a{b}c"), &t), Ok(s("aXYc")));
    assert_eq!(patch_variable_references(&s("{dir}/{b}.o"), &t), Ok(s("build/XY.o")));
    assert_eq!(patch_variable_references(&s(""), &t), Ok(s("")));
}

#[test]
fn unterminated_reference_is_dropped() {
    let t = table(&[("cd", "1")]);
    assert_eq!(patch_variable_references(&s("ab{cd"), &t), Ok(s("ab")));
}

#[test]
fn backticks_are_literal_without_command_references() {
    assert_eq!(patch_variable_references(&s("a`b`c"), &VariableTable::new()), Ok(s("a`b`c")));
}

#[test]
fn command_references_split_the_template() {
    let t = table(&[("v", "1.0")]);
    let pieces = patch_string(&s("x{v}`echo hi`y"), &t).ok().unwrap();
    assert_eq!(pieces.len(), 3);
    assert!(matches!(&pieces[0], Piece::Text(a) if a == "x1.0"));
    assert!(matches!(&pieces[1], Piece::Command(c) if c == "echo hi"));
    assert!(matches!(&pieces[2], Piece::Text(a) if a == "y"));
    let outputs = vec![s("ignored"), s("hi\n"), s("")];
    assert_eq!(assemble(&pieces, &outputs), "x1.0hi\ny");
}

#[test]
fn command_reference_after_command_returns_to_text() {
    let pieces = patch_string(&s("`a`-`b`"), &VariableTable::new()).ok().unwrap();
    assert_eq!(pieces.len(), 5);
    assert!(matches!(&pieces[3], Piece::Command(c) if c == "b"));
    let outputs = vec![s(""), s("A"), s(""), s("B"), s("")];
    assert_eq!(assemble(&pieces, &outputs), "A-B");
}

#[test]
fn undefined_reference_in_command_template() {
    assert_eq!(patch_string(&s("`echo {nope}`{nope}"), &VariableTable::new()).err(), Some(s("nope")));
}

#[test]
fn command_words_trim_and_split() {
    let w = command_words(&s("  echo 'a b' c  ")).ok().unwrap();
    assert_eq!(w, vec![s("echo"), s("a b"), s("c")]);
}

#[test]
fn command_words_reject_bad_and_empty_commands() {
    assert!(matches!(command_words(&s("echo 'a")), Err(PreprocessError::UnparsableCommand { command }) if command == "echo 'a"));
    assert!(matches!(command_words(&s("   ")), Err(PreprocessError::EmptyCommand { command }) if command == "   "));
}

#[test]
fn check_var_string_names_key_and_reference() {
    assert!(matches!(check_var_string(Ok(s("v")), s("k")), Ok(v) if v == "v"));
    match check_var_string(Err(s("x")), s("k")) {
        Err(PreprocessError::UndefinedVariable { key, name }) => {
            assert_eq!(key, "k");
            assert_eq!(name, "x");
        }
        _ => panic!("expected an undefined reference"),
    }
}

fn cmd(program: &str, args: &[&str], run_if: Option<&[&str]>) -> Command {
    Command {
        command: s(program),
        arguments: args.iter().map(|a| s(a)).collect(),
        run_if: run_if.map(|r| r.iter().map(|a| s(a)).collect()),
    }
}

#[test]
fn command_to_string_joins_with_spaces() {
    assert_eq!(cmd("gcc", &["-o", "out", "main.c"], None).to_string(), "gcc -o out main.c");
    assert_eq!(cmd("ls", &[], None).to_string(), "ls ");
}

#[test]
fn preprocess_expands_every_field() {
    let t = table(&[("cc", "gcc"), ("src", "main.c")]);
    let mut recipe = CoyoteJson {
        project_name: s("demo"),
        variables: vec![(s("cc"), s("gcc")), (s("src"), s("main.c"))],
        executables: vec![Executable {
            target: s("all"),
            commands: vec![
                cmd("{cc}", &["-c", "{src}"], Some(&["modified", "{src}"])),
                cmd("echo", &["done"], None),
            ],
        }],
    };
    assert!(recipe.preprocess(&t).is_ok());
    let c = &recipe.executables[0].commands[0];
    assert_eq!(c.command, "gcc");
    assert_eq!(c.arguments, vec![s("-c"), s("main.c")]);
    assert_eq!(c.run_if, Some(vec![s("modified"), s("main.c")]));
    assert_eq!(recipe.executables[0].commands[1].arguments, vec![s("done")]);
    assert_eq!(recipe.project_name, "demo");
}

#[test]
fn preprocess_failure_names_field_and_leaves_recipe() {
    let t = table(&[("cc", "gcc")]);
    let mut recipe = CoyoteJson {
        project_name: s("demo"),
        variables: vec![],
        executables: vec![Executable {
            target: s("all"),
            commands: vec![cmd("{cc}", &["{missing}/x"], None)],
        }],
    };
    match recipe.preprocess(&t) {
        Err(PreprocessError::UndefinedVariable { key, name }) => {
            assert_eq!(key, "{missing}/x");
            assert_eq!(name, "missing");
        }
        _ => panic!("expected an undefined reference"),
    }
    assert_eq!(recipe.executables[0].commands[0].command, "{cc}");
}

#[test]
fn command_words_trim_unicode_whitespace() {
    let w = command_words(&s("\u{3000}make\u{3000}")).ok().unwrap();
    assert_eq!(w, vec![s("make")]);
}
