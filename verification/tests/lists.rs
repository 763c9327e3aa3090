use vhdl_names::ast::{Name, Spanned, WithRef};
use vhdl_names::diagnostic::Diagnostic;
use vhdl_names::separated_list::{parse_ident_list, parse_name_list, IdentList, SeparatedList};
use vhdl_names::syntax::{Kind, Token, TokenStream};

/// Scan a source string into tokens: identifier runs, commas, dots and
/// semicolons, with byte positions.
fn tokenize(code: &str) -> Vec<Token> {
    let bytes = code.as_bytes();
    let mut tokens = Vec::new();
    let mut i = 0;
    while i < bytes.len() {
        let b = bytes[i];
        if b == b' ' {
            i += 1;
        } else if b == b',' {
            tokens.push(Token {
                kind: Kind::Comma,
                value: String::new(),
                pos: i,
            });
            i += 1;
        } else if b == b'.' {
            tokens.push(Token {
                kind: Kind::Dot,
                value: String::new(),
                pos: i,
            });
            i += 1;
        } else if b == b';' {
            tokens.push(Token {
                kind: Kind::SemiColon,
                value: String::new(),
                pos: i,
            });
            i += 1;
        } else {
            let start = i;
            while i < bytes.len() && (bytes[i].is_ascii_alphanumeric() || bytes[i] == b'_') {
                i += 1;
            }
            let word = &code[start..i];
            let kind = if word == "all" {
                Kind::All
            } else {
                Kind::Identifier
            };
            tokens.push(Token {
                kind,
                value: word.to_string(),
                pos: start,
            });
        }
    }
    tokens
}

fn stream(code: &str) -> TokenStream {
    TokenStream::new(tokenize(code))
}

fn ident(name: &str, pos: usize, slot: usize) -> WithRef<Spanned<String>> {
    WithRef {
        item: Spanned {
            item: name.to_string(),
            pos,
        },
        slot,
    }
}

fn designator(name: &str, slot: usize) -> Name {
    Name::Designator(WithRef {
        item: name.to_string(),
        slot,
    })
}

#[test]
pub fn test_error_on_empty_list() {
    let mut s = stream("");
    let mut diag: Vec<Diagnostic> = Vec::new();
    let res = parse_ident_list(&mut s, &mut diag, Kind::SemiColon);
    assert!(matches!(res, Err(_)));
}

#[test]
pub fn parse_single_element_list() {
    let mut s = stream("abc");
    let mut diag: Vec<Diagnostic> = Vec::new();
    let res = parse_ident_list(&mut s, &mut diag, Kind::SemiColon).unwrap();
    assert!(diag.is_empty());
    assert_eq!(res, IdentList::single(ident("abc", 0, 0)));
}

#[test]
pub fn parse_list_with_multiple_elements() {
    let mut s = stream("abc, def, ghi");
    let mut diag: Vec<Diagnostic> = Vec::new();
    let res = parse_ident_list(&mut s, &mut diag, Kind::SemiColon).unwrap();
    assert!(diag.is_empty());
    assert_eq!(
        res,
        IdentList {
            items: vec![ident("abc", 0, 0), ident("def", 5, 2), ident("ghi", 10, 4)],
            tokens: vec![1, 3],
        }
    );
}

#[test]
fn parse_list_with_many_names() {
    let mut s = stream("work.foo, lib.bar.all");
    let mut diag: Vec<Diagnostic> = Vec::new();
    let res = parse_name_list(&mut s, &mut diag, Kind::SemiColon).unwrap();
    assert!(diag.is_empty());
    let work_foo = Spanned {
        item: Name::Selected(
            Box::new(Spanned {
                item: designator("work", 0),
                pos: 0,
            }),
            Spanned {
                item: WithRef {
                    item: "foo".to_string(),
                    slot: 2,
                },
                pos: 5,
            },
        ),
        pos: 0,
    };
    let lib_bar_all = Spanned {
        item: Name::SelectedAll(Box::new(Spanned {
            item: Name::Selected(
                Box::new(Spanned {
                    item: designator("lib", 4),
                    pos: 10,
                }),
                Spanned {
                    item: WithRef {
                        item: "bar".to_string(),
                        slot: 6,
                    },
                    pos: 14,
                },
            ),
            pos: 10,
        })),
        pos: 10,
    };
    assert_eq!(
        res,
        SeparatedList {
            items: vec![work_foo, lib_bar_all],
            tokens: vec![3],
        }
    );
}

#[test]
fn trailing_separator_is_reported_and_ends_the_list() {
    let mut s = stream("abc, def, ;");
    let mut diag: Vec<Diagnostic> = Vec::new();
    let res = parse_ident_list(&mut s, &mut diag, Kind::SemiColon).unwrap();
    assert_eq!(diag.len(), 1);
    assert_eq!(diag[0].message, "Trailing comma not allowed");
    assert_eq!(diag[0].pos, 8);
    assert_eq!(
        res,
        IdentList {
            items: vec![ident("abc", 0, 0), ident("def", 5, 2)],
            tokens: vec![1, 3],
        }
    );
}

#[test]
fn list_element_error_propagates() {
    let mut s = stream("abc, .");
    let mut diag: Vec<Diagnostic> = Vec::new();
    let res = parse_ident_list(&mut s, &mut diag, Kind::SemiColon);
    assert!(res.is_err());
    assert_eq!(res.unwrap_err().message, "Expected an identifier");
    assert!(diag.is_empty());
}
