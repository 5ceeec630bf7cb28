use gwe::generators::gwe::generate;
use gwe::parser::parse;

#[test]
fn gwe_empty_function() {
    let input = String::from(
        "fn hello_world(): void {
}",
    );

    match parse(input.clone()) {
        Err(err) => panic!("{}", err),
        Ok(program) => {
            assert_eq!(generate(program), input);
        }
    }
}

#[test]
fn gwe_empty_with_an_arg_function() {
    let input = String::from(
        "fn hello_world(name: string): void {
}",
    );

    match parse(input.clone()) {
        Err(err) => panic!("{}", err),
        Ok(program) => {
            assert_eq!(generate(program), input);
        }
    }
}

#[test]
fn gwe_empty_with_several_args_function() {
    let input = String::from(
        "fn hello_world(name: string, age: i32): void {
}",
    );

    match parse(input.clone()) {
        Err(err) => panic!("{}", err),
        Ok(program) => {
            assert_eq!(generate(program), input);
        }
    }
}

#[test]
fn gwe_return_function() {
    let input = String::from(
        "fn hello_world(name: string): string {
    return name;
}",
    );

    match parse(input.clone()) {
        Err(err) => panic!("{}", err),
        Ok(program) => {
            assert_eq!(generate(program), input);
        }
    }
}

#[test]
fn gwe_local_var_and_addition_function() {
    let input = String::from(
        "fn hello_world(name: string): string {
    local message: string = \"Hello \" + name;
    return message;
}",
    );

    match parse(input.clone()) {
        Err(err) => panic!("{}", err),
        Ok(program) => {
            assert_eq!(generate(program), input);
        }
    }
}

#[test]
fn gwe_global_var_and_addition_function() {
    let input = String::from(
        "fn hello_world(): void {
    global num: f32 = 123 + 3.14;
}",
    );

    match parse(input.clone()) {
        Err(err) => panic!("{}", err),
        Ok(program) => {
            assert_eq!(generate(program), input);
        }
    }
}

#[test]
fn gwe_export_function() {
    let input = String::from(
        "fn hello_world(): f32 {
    return 3.14;
}

export helloWorld hello_world",
    );

    match parse(input.clone()) {
        Err(err) => panic!("{}", err),
        Ok(program) => {
            assert_eq!(generate(program), input);
        }
    }
}

#[test]
fn gwe_import_function() {
    let input = String::from("import fn log(number: i32) console.log");

    match parse(input.clone()) {
        Err(err) => panic!("{}", err),
        Ok(program) => {
            assert_eq!(generate(program), input);
        }
    }
}

#[test]
fn gwe_call_function() {
    let input = String::from(
        "import fn log(number: i32) console.log

fn main(): void {
    log(3.14);
}

export main main",
    );

    match parse(input.clone()) {
        Err(err) => panic!("{}", err),
        Ok(program) => {
            assert_eq!(generate(program), input);
        }
    }
}

#[test]
fn gwe_import_memory() {
    let input = String::from(
        "import memory 1 js.mem

fn main(): void {
    log(3.14);
}

export main main",
    );

    match parse(input.clone()) {
        Err(err) => panic!("{}", err),
        Ok(program) => {
            assert_eq!(generate(program), input);
        }
    }
}

#[test]
fn gwe_if_statement() {
    let input = String::from(
        "import memory 1 js.mem

fn main(): void {
    if (0) {
        log(3.14);
    } else {
        log(42);
    };
}

export main main",
    );

    match parse(input.clone()) {
        Err(err) => panic!("{}", err),
        Ok(program) => {
            assert_eq!(generate(program), input);
        }
    }
}

#[test]
fn gwe_boolean() {
    let input = String::from(
        "import memory 1 js.mem

fn main(): void {
    if (true) {
        log(true);
    } else {
        log(false);
    };
}

export main main",
    );

    match parse(input.clone()) {
        Err(err) => panic!("{}", err),
        Ok(program) => {
            assert_eq!(generate(program), input);
        }
    }
}

#[test]
fn gwe_for_loop() {
    let input = String::from(
        "import fn log(number: i32) console.log

fn main(): void {
    for (local x: i32 = 0, 10, 1) {
        log(x);
    };
}

export main main",
    );

    match parse(input.clone()) {
        Err(err) => panic!("{}", err),
        Ok(program) => {
            assert_eq!(generate(program), input);
        }
    }
}
