use rsless::effect::Effect;
use rsless::templates::{prototype_ok_exec, rust_temp};

fn driver(call: &str) -> String {
    format!(
        "
fn main() {{
    use std::env;
    
    enum faastype{{
        int(u32),
        string(String)
    }}
    
    let args: Vec<String> = env::args().collect();
    let result = {};
    println!(\"FaaSRESULT:{{:?}}\",result);
}}
",
        call
    )
}

#[test]
fn rust_temp_builds_fib() {
    let effects = rust_temp(
        "faas_1".to_string(),
        ".FaasDirectory/9/fibexample".to_string(),
        "fib(arg1:u128) -> u128".to_string(),
    );
    assert_eq!(effects.len(), 3);
    match &effects[0] {
        Effect::AppendFile { path, contents } => {
            assert_eq!(path, ".FaasDirectory/9/fibexample/src/main.rs");
            assert_eq!(contents, &driver("fib(args[1].parse::<u128>().unwrap())"));
        }
        other => panic!("unexpected {:?}", other),
    }
    match &effects[1] {
        Effect::Cargo { dir, args } => {
            assert_eq!(dir, ".FaasDirectory/9/fibexample");
            assert_eq!(args, &vec!["init".to_string(), "--name=faas_1".to_string()]);
        }
        other => panic!("unexpected {:?}", other),
    }
    match &effects[2] {
        Effect::Cargo { dir, args } => {
            assert_eq!(dir, ".FaasDirectory/9/fibexample");
            assert_eq!(args, &vec!["build".to_string(), "--release".to_string()]);
        }
        other => panic!("unexpected {:?}", other),
    }
}

#[test]
fn rust_temp_numbers_every_argument() {
    let effects = rust_temp(
        "b".to_string(),
        "p".to_string(),
        "  join ( a : &String, b:u32 ,c: &u64, d:String) -> String".to_string(),
    );
    match &effects[0] {
        Effect::AppendFile { contents, .. } => assert_eq!(
            contents,
            &driver(
                "join(&args[1],args[2].parse::<u32>().unwrap(),&args[3].parse::<u64>().unwrap(),args[4])"
            )
        ),
        other => panic!("unexpected {:?}", other),
    }
}

#[test]
fn rust_temp_skips_unsupported_types() {
    let effects = rust_temp("b".to_string(), "p".to_string(), "f(x: i32) -> i32".to_string());
    assert!(effects.is_empty());
}

#[test]
fn prototype_readability() {
    assert!(prototype_ok_exec("fib(arg1:u128) -> u128"));
    assert!(!prototype_ok_exec("fib"));
    assert!(!prototype_ok_exec("f()"));
    assert!(!prototype_ok_exec("f(a:u32, b)"));
}

#[test]
fn return_type_is_ignored() {
    let a = rust_temp("b".to_string(), "p".to_string(), "fib(arg1:u128) -> u128".to_string());
    let b = rust_temp("b".to_string(), "p".to_string(), "fib(arg1:u128) -> String (whatever)".to_string());
    assert_eq!(format!("{:?}", a), format!("{:?}", b));
}

#[test]
fn parameters_end_at_a_second_paren() {
    let a = rust_temp("b".to_string(), "p".to_string(), "f(a:u32 (x) -> u32".to_string());
    let b = rust_temp("b".to_string(), "p".to_string(), "f(a:u32 (x) -> String".to_string());
    assert_eq!(format!("{:?}", a), format!("{:?}", b));
    assert_eq!(a.len(), 3);
}
