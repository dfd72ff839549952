use router_crabs::{env_var_names, resolve_env_vars, Environment};

fn environment(vars: &[(&str, &str)]) -> Environment {
    let mut env = Environment::new();
    for (name, value) in vars {
        env.set(name.to_string(), value.to_string());
    }
    env
}

#[test]
fn variable_in_a_url() {
    let env = environment(&[("KEY", "value123")]);
    assert_eq!(
        resolve_env_vars("https://api.example.com?key=${KEY}", &env),
        "https://api.example.com?key=value123"
    );
}

#[test]
fn undefined_variable_is_empty() {
    let env = Environment::new();
    assert_eq!(resolve_env_vars("a${MISSING}b", &env), "ab");
    assert_eq!(env.value("MISSING"), "");
}

#[test]
fn several_variables() {
    let env = environment(&[("A", "1"), ("B", "deux"), ("", "none")]);
    assert_eq!(resolve_env_vars("${A}-${B}${A}${}", &env), "1-deux1none");
}

#[test]
fn values_are_not_resolved_again() {
    let env = environment(&[("A", "${B}"), ("B", "x"), ("D", "$")]);
    assert_eq!(resolve_env_vars("${A}", &env), "${B}");
    assert_eq!(resolve_env_vars("${D}{B}", &env), "${B}");
}

#[test]
fn unclosed_placeholder_stays() {
    let env = environment(&[("A", "1")]);
    assert_eq!(resolve_env_vars("${A} and ${A", &env), "1 and ${A");
    assert_eq!(resolve_env_vars("$", &env), "$");
    assert_eq!(resolve_env_vars("${", &env), "${");
    assert_eq!(resolve_env_vars("$A } {A}", &env), "$A } {A}");
    assert_eq!(resolve_env_vars("", &env), "");
}

#[test]
fn name_reaches_to_the_first_closing_brace() {
    let env = environment(&[("A${B", "1"), ("B", "2")]);
    assert_eq!(resolve_env_vars("${A${B}}", &env), "1}");
    assert_eq!(resolve_env_vars("$${B}", &env), "$2");
}

#[test]
fn last_assignment_counts() {
    let env = environment(&[("A", "1"), ("B", "2"), ("A", "3")]);
    assert_eq!(env.value("A"), "3");
    assert_eq!(env.value("B"), "2");
}

#[test]
fn names_in_order() {
    assert_eq!(env_var_names("${A}x${Clé}${A}${open"), vec!["A", "Clé", "A"]);
    assert!(env_var_names("plain").is_empty());
}

#[test]
fn only_named_variables_matter() {
    let text = "${A}/${B}";
    let env = environment(&[("A", "1"), ("B", "2")]);
    let other = environment(&[("A", "1"), ("B", "2"), ("C", "3")]);
    assert_eq!(resolve_env_vars(text, &env), resolve_env_vars(text, &other));
}

#[test]
fn defined_and_undefined_variables() {
    let env = environment(&[("A", "1"), ("EMPTY", ""), ("A", "2")]);
    assert_eq!(env.get("A"), Some("2".to_string()));
    assert_eq!(env.get("EMPTY"), Some(String::new()));
    assert_eq!(env.get("B"), None);
}
