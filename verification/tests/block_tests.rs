use gwe::blocks::Block;
use gwe::blocks::Export;
use gwe::blocks::into_blocks;
use gwe::blocks::parse_block;

#[test]
fn export_block() {
    assert_eq!(
        parse_block(String::from("export sayHello say_hello")),
        Ok(Block::Export(Export {
            external_name: String::from("sayHello"),
            function_name: String::from("say_hello")
        }))
    )
}

#[test]
fn multiple_blocks() {
    let blocks = into_blocks(String::from(
        "import fn log(number: i32) console.log
import memory 1 js.mem

fn main(): void {
    log(3.14);
}",
    ));

    assert_eq!(
        blocks,
        vec![
            "import fn log(number: i32) console.log",
            "import memory 1 js.mem",
            "fn main(): void {
    log(3.14);
}"
        ]
    )
}

#[test]
fn single_block() {
    let blocks = into_blocks(String::from(
        "fn main(): void {
    log(3.14);
}",
    ));

    assert_eq!(
        blocks,
        vec![
            "fn main(): void {
    log(3.14);
}"
        ]
    )
}
