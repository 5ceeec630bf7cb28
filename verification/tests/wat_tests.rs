use gwe::generators::web_assembly::generate;
use gwe::parser::parse;

#[test]
fn web_assembly_empty_function() {
    let input = String::from(
        "fn hello_world(): void {
}",
    );

    let output = String::from(
        "(module
  (func $hello_world
  )
)",
    );

    match parse(input.clone()) {
        Err(err) => panic!("{}", err),
        Ok(program) => {
            assert_eq!(generate(program).unwrap(), output);
        }
    }
}

#[test]
fn web_assembly_empty_with_an_arg_function() {
    let input = String::from(
        "fn hello_world(name: string): void {
}",
    );

    let output = String::from(
        "(module
  (func $hello_world (param $name string)
  )
)",
    );

    match parse(input.clone()) {
        Err(err) => panic!("{}", err),
        Ok(program) => {
            assert_eq!(generate(program).unwrap(), output);
        }
    }
}

#[test]
fn web_assembly_empty_with_several_args_function() {
    let input = String::from(
        "fn hello_world(name: string, age: i32): void {
}",
    );
    let output = String::from(
        "(module
  (func $hello_world (param $name string) (param $age i32)
  )
)",
    );

    match parse(input.clone()) {
        Err(err) => panic!("{}", err),
        Ok(program) => {
            assert_eq!(generate(program).unwrap(), output);
        }
    }
}

#[test]
fn web_assembly_return_function() {
    let input = String::from(
        "fn hello_world(name: string): string {
    return name;
}",
    );
    let output = String::from(
        "(module
  (func $hello_world (param $name string) (result string)
    (local.get $name)
  )
)",
    );

    match parse(input.clone()) {
        Err(err) => panic!("{}", err),
        Ok(program) => {
            assert_eq!(generate(program).unwrap(), output);
        }
    }
}

#[test]
fn web_assembly_local_var_and_addition_function() {
    let input = String::from(
        "fn hello_world(name: i32): i32 {
    local message: i32 = name;
    return message;
}",
    );
    let output = String::from(
        "(module
  (func $hello_world (param $name i32) (result i32)
    (local $message i32)
    (local.set $message (local.get $name))
    (local.get $message)
  )
)",
    );

    match parse(input.clone()) {
        Err(err) => panic!("{}", err),
        Ok(program) => {
            assert_eq!(generate(program).unwrap(), output);
        }
    }
}

#[test]
fn web_assembly_global_var_and_addition_function() {
    let input = String::from(
        "fn hello_world(): void {
    global num: f32 = 123 + 3.14;
}",
    );
    let output = String::from(
        "(module
  (global $num (mut f32))
  (func $hello_world
    (global.set $num (f32.add (f32.const 123) (f32.const 3.14)))
  )
)",
    );

    match parse(input.clone()) {
        Err(err) => panic!("{}", err),
        Ok(program) => {
            assert_eq!(generate(program).unwrap(), output);
        }
    }
}

#[test]
fn web_assembly_export_function() {
    let input = String::from(
        "fn hello_world(): f32 {
    return 3.14;
}

export helloWorld hello_world",
    );
    let output = String::from(
        "(module
  (func $hello_world (result f32)
    (f32.const 3.14)
  )
  (export \"helloWorld\" (func $hello_world))
)",
    );

    match parse(input.clone()) {
        Err(err) => panic!("{}", err),
        Ok(program) => {
            assert_eq!(generate(program).unwrap(), output);
        }
    }
}

#[test]
fn web_assembly_import_function() {
    let input = String::from("import fn log(number: i32) console.log");
    let output = String::from(
        "(module
  (import \"console\" \"log\" (func $log (param i32)))
)",
    );

    match parse(input.clone()) {
        Err(err) => panic!("{}", err),
        Ok(program) => {
            assert_eq!(generate(program).unwrap(), output);
        }
    }
}

#[test]
fn web_assembly_call_function() {
    let input = String::from(
        "import fn log(number: i32) console.log

fn main(): void {
    log(3.14);
}

export main main",
    );
    let output = String::from(
        "(module
  (import \"console\" \"log\" (func $log (param i32)))
  (func $main
    (f32.const 3.14)
    (call $log)
  )
  (export \"main\" (func $main))
)",
    );

    match parse(input.clone()) {
        Err(err) => panic!("{}", err),
        Ok(program) => {
            assert_eq!(generate(program).unwrap(), output);
        }
    }
}

#[test]
fn string_function() {
    let input = String::from(
        "import fn log(offset: i32, length: i32) console.log
import memory 1 js.mem

fn main(): void {
    local message: string = \"Hello world\";
    log();
}

export main main",
    );
    let output = String::from(
        "(module
  (import \"console\" \"log\" (func $log (param i32 i32)))
  (import \"js\" \"mem\" (memory 1))
  (data (i32.const 0) \"Hello world\")
  (func $main
    (i32.const 0)
    (i32.const 11)
    (call $log)
  )
  (export \"main\" (func $main))
)",
    );

    match parse(input.clone()) {
        Err(err) => panic!("{}", err),
        Ok(program) => {
            let generated = generate(program).unwrap();
            assert_eq!(
                generated, output,
                "Generated:\n{}\n\n\n========\nExpected:\n{}",
                generated, output
            );
        }
    }
}

#[test]
fn web_assembly_import_memory() {
    let input = String::from(
        "import memory 1 js.mem

fn main(): void {
    log(3.14);
}

export main main",
    );
    let output = String::from(
        "(module
  (import \"js\" \"mem\" (memory 1))
  (func $main
    (f32.const 3.14)
    (call $log)
  )
  (export \"main\" (func $main))
)",
    );

    match parse(input.clone()) {
        Err(err) => panic!("{}", err),
        Ok(program) => {
            let generated = generate(program).unwrap();
            assert_eq!(
                generated, output,
                "Generated:\n{}\n\n\n========\nExpected:\n{}",
                generated, output
            );
        }
    }
}

#[test]
fn web_assembly_if_statement() {
    let input = String::from(
        "import memory 1 js.mem

fn main(): void {
    if (0) { log(3.14) } { log(42) };
}

export main main",
    );
    let output = String::from(
        "(module
  (import \"js\" \"mem\" (memory 1))
  (func $main
    (if
      (f32.const 0)
      (then
        (f32.const 3.14)
        (call $log)
      )
      (else
        (f32.const 42)
        (call $log)
      )
    )
  )
  (export \"main\" (func $main))
)",
    );

    match parse(input.clone()) {
        Err(err) => panic!("{}", err),
        Ok(program) => {
            let generated = generate(program).unwrap();
            assert_eq!(
                generated, output,
                "Generated:\n{}\n\n\n========\nExpected:\n{}",
                generated, output
            );
        }
    }
}

#[test]
fn web_assembly_boolean() {
    let input = String::from(
        "import memory 1 js.mem

fn main(): void {
    if (true) { log(true) } { log(false) };
}

export main main",
    );

    let output = String::from(
        "(module
  (import \"js\" \"mem\" (memory 1))
  (func $main
    (if
      (i32.const 0)
      (then
        (i32.const 0)
        (call $log)
      )
      (else
        (i32.const 1)
        (call $log)
      )
    )
  )
  (export \"main\" (func $main))
)",
    );

    match parse(input.clone()) {
        Err(err) => panic!("{}", err),
        Ok(program) => {
            let generated = generate(program).unwrap();
            assert_eq!(
                generated, output,
                "Generated:\n{}\n\n\n========\nExpected:\n{}",
                generated, output
            );
        }
    }
}

#[test]
fn web_assembly_for_loop() {
    let input = String::from(
        "import fn log(number: i32) console.log

fn main(): void {
    for (local x: i32 = 0, 10, 1) {
        log(x);
    };
}

export main main",
    );

    let output = String::from(
        "(module
  (import \"console\" \"log\" (func $log (param i32)))
  (func $main
    (local $x i32)
    (local.set $x (i32.const 0))
    (loop $loop
      (local.get $x)
      (call $log)
      (local.get $x)
      (i32.const 1)
      (i32.add)
      (local.set $x)
      (local.get $x)
      (i32.const 10)
      (i32.lt_s)
      (br_if $loop)
    )
  )
  (export \"main\" (func $main))
)",
    );

    match parse(input.clone()) {
        Err(err) => panic!("{}", err),
        Ok(program) => {
            let generated = generate(program).unwrap();
            assert_eq!(
                generated, output,
                "Generated:\n{}\n\n\n========\nExpected:\n{}",
                generated, output
            );
        }
    }
}
