use gwe::tokenizer::Token;
use gwe::tokenizer::tokenize;

#[test]
fn tokenize_parens_passes() {
    assert_eq!(
        tokenize(String::from("())("))
            .iter()
            .map(|fqt| fqt.clone().token)
            .collect::<Vec<Token>>(),
        vec![
            Token::LeftParen,
            Token::RightParen,
            Token::RightParen,
            Token::LeftParen
        ]
    )
}

#[test]
fn tokenize_identifier_passes() {
    assert_eq!(
        tokenize(String::from("say_hi"))
            .iter()
            .map(|fqt| fqt.clone().token)
            .collect::<Vec<Token>>(),
        vec![Token::Identifier {
            body: String::from("say_hi")
        }]
    )
}

#[test]
fn tokenize_fn_passes() {
    assert_eq!(
        tokenize(String::from("fn say_hi()"))
            .iter()
            .map(|fqt| fqt.clone().token)
            .collect::<Vec<Token>>(),
        vec![
            Token::Fn,
            Token::Identifier {
                body: String::from("say_hi")
            },
            Token::LeftParen,
            Token::RightParen
        ]
    )
}

#[test]
fn tokenize_fn_with_args_passes() {
    assert_eq!(
        tokenize(String::from("fn say_hi(name: string) {\n}"))
            .iter()
            .map(|fqt| fqt.clone().token)
            .collect::<Vec<Token>>(),
        vec![
            Token::Fn,
            Token::Identifier {
                body: String::from("say_hi")
            },
            Token::LeftParen,
            Token::Identifier {
                body: String::from("name"),
            },
            Token::Colon,
            Token::Identifier {
                body: String::from("string"),
            },
            Token::RightParen,
            Token::LeftBracket,
            Token::RightBracket
        ]
    )
}

#[test]
fn tokenize_empty_string_passes() {
    assert_eq!(
        tokenize(String::from("\"\""))
            .iter()
            .map(|fqt| fqt.clone().token)
            .collect::<Vec<Token>>(),
        vec![Token::Text {
            body: String::from("")
        }]
    )
}

#[test]
fn tokenize_filled_string_passes() {
    assert_eq!(
        tokenize(String::from("\"Hello world this is a = test.\""))
            .iter()
            .map(|fqt| fqt.clone().token)
            .collect::<Vec<Token>>(),
        vec![Token::Text {
            body: String::from("Hello world this is a = test.")
        }]
    )
}

#[test]
fn tokenize_addition_passes() {
    assert_eq!(
        tokenize(String::from("name + \"world\""))
            .iter()
            .map(|fqt| fqt.clone().token)
            .collect::<Vec<Token>>(),
        vec![
            Token::Identifier {
                body: String::from("name")
            },
            Token::Plus,
            Token::Text {
                body: String::from("world")
            }
        ]
    )
}

#[test]
fn tokenize_number_addition_passes() {
    assert_eq!(
        tokenize(String::from("123 + 3.14"))
            .iter()
            .map(|fqt| fqt.clone().token)
            .collect::<Vec<Token>>(),
        vec![
            Token::Number {
                body: String::from("123")
            },
            Token::Plus,
            Token::Number {
                body: String::from("3.14")
            }
        ]
    )
}

#[test]
fn import_passes() {
    assert_eq!(
        tokenize(String::from("import fn log(number: i32) console.log"))
            .iter()
            .map(|fqt| fqt.clone().token)
            .collect::<Vec<Token>>(),
        vec![
            Token::Import,
            Token::Fn,
            Token::Identifier {
                body: String::from("log")
            },
            Token::LeftParen,
            Token::Identifier {
                body: String::from("number")
            },
            Token::Colon,
            Token::Identifier {
                body: String::from("i32")
            },
            Token::RightParen,
            Token::Identifier {
                body: String::from("console")
            },
            Token::Dot,
            Token::Identifier {
                body: String::from("log")
            },
        ]
    )
}

#[test]
fn import_memory_passes() {
    assert_eq!(
        tokenize(String::from("import memory 1 js.mem"))
            .iter()
            .map(|fqt| fqt.clone().token)
            .collect::<Vec<Token>>(),
        vec![
            Token::Import,
            Token::Memory,
            Token::Number {
                body: String::from("1")
            },
            Token::Identifier {
                body: String::from("js")
            },
            Token::Dot,
            Token::Identifier {
                body: String::from("mem")
            },
        ]
    )
}
