use vhdl_names::latin1::Latin1String;
use vhdl_names::source::Source;
use vhdl_names::source::WithPos;

#[test]
fn srcpos_combine() {
    let source = Source::from_str("hello world").unwrap();

    assert_eq!(
        source.pos(0, 2).combine(&source.pos(2, 2)),
        source.pos(0, 4)
    );

    assert_eq!(
        source.pos(0, 2).combine(&source.pos(4, 2)),
        source.pos(0, 6)
    );

    assert_eq!(
        source.pos(4, 2).combine(&source.pos(0, 2)),
        source.pos(0, 6)
    );
}

#[test]
fn code_context_pos_last_line_without_newline() {
    let source = Source::from_str("hello world").unwrap();
    let pos = source.first_substr_pos("hello");
    assert_eq!(
        pos.code_context(),
        "\
1 --> hello world
   |  ~~~~~
"
    );
}

#[test]
fn code_context_pos_with_indent() {
    let source = Source::from_str("    hello world").unwrap();
    let pos = source.first_substr_pos("hello");
    assert_eq!(
        pos.code_context(),
        "\
1 -->     hello world
   |      ~~~~~
"
    );
}

#[test]
fn code_context_eof() {
    let source = Source::from_str("h").unwrap();
    let pos = source.pos(1, 1);
    assert_eq!(
        pos.code_context(),
        "\
1 --> h
   |   ~
",
    );
}

#[test]
fn code_context_eof_empty() {
    let source = Source::from_str("").unwrap();
    let pos = source.pos(0, 1);
    assert_eq!(pos.code_context(), "1 --> \n   |  ~\n",);
}

#[test]
fn code_context_with_context() {
    let source = Source::from_str("hello\nworld").unwrap();
    let pos = source.first_substr_pos("hello");
    assert_eq!(
        pos.code_context(),
        "\
1 --> hello
   |  ~~~~~
2  |  world
",
    );
}

#[test]
fn code_context_with_tabs() {
    let source = Source::from_str("\thello\t").unwrap();
    let pos = source.first_substr_pos("hello\t");
    assert_eq!(
        pos.code_context(),
        "\
1 -->     hello
   |      ~~~~~~~~~
",
    );
}

#[test]
fn code_context_non_ascii() {
    let source = Source::from_str("åäö\nåäö\n__å_ä_ö__").unwrap();
    let pos = source.first_substr_pos("å_ä_ö");
    assert_eq!(pos.length, 5);
    assert_eq!(
        pos.code_context(),
        "\
1  |  åäö
2  |  åäö
3 --> __å_ä_ö__
   |    ~~~~~
",
    );
}

#[test]
fn code_context_with_full_context() {
    let source = Source::from_str(
        "\
line1
line2
line3
line4
line5
line6
line7
line8
line9
line10
line11
line12
line13",
    )
    .unwrap();
    let pos = source.first_substr_pos("line10");
    assert_eq!(
        pos.code_context(),
        " \
 8  |  line8
 9  |  line9
10 --> line10
    |  ~~~~~~
11  |  line11
12  |  line12
",
    );
}

#[test]
fn show_contents() {
    let source = Source::from_str("hello\nworld\nline\n").unwrap();
    assert_eq!(
        &source.first_substr_pos("world").show("Greetings"),
        "\
Greetings
  --> {unknown file}:2
   |
1  |  hello
2 --> world
   |  ~~~~~
3  |  line
"
    );
}

#[test]
fn substr_pos_finds_the_requested_occurrence() {
    let source = Source::from_str("ababab").unwrap();
    assert_eq!(source.substr_pos("ab", 1), source.pos(0, 2));
    assert_eq!(source.substr_pos("ab", 2), source.pos(2, 2));
    assert_eq!(source.substr_pos("ab", 3), source.pos(4, 2));
}

#[test]
fn from_str_rejects_text_outside_latin1() {
    assert!(Source::from_str("snowman \u{2603}").is_err());
    assert!(Latin1String::from_utf8("\u{0100}").is_err());
}

#[test]
fn latin1_round_trip() {
    let l = Latin1String::from_utf8("café åäö").unwrap();
    assert_eq!(l.len(), 8);
    assert_eq!(l.to_string(), "café åäö");
    assert_eq!(l.bytes[3], 0xE9);
}

#[test]
fn file_sources_keep_their_name() {
    let source = Source::from_file("design.vhd");
    assert_eq!(source.file_name(), Some("design.vhd"));
    let mem = Source::from_str("x").unwrap();
    assert_eq!(mem.file_name(), None);
}

#[test]
fn with_pos_maps_the_item_and_keeps_the_position() {
    let source = Source::from_str("abc").unwrap();
    let w = WithPos::new(3u64, &source.pos(1, 2));
    let w2 = w.map_into(|x| x + 1);
    assert_eq!(w2.item, 4);
    assert_eq!(w2.pos, source.pos(1, 2));

    let w3 = WithPos::new(3u64, &source.pos(0, 1));
    let r = w3.try_map_into(|x: u64| -> Result<u64, String> { Err(format!("bad {}", x)) });
    let err = r.unwrap_err();
    assert_eq!(err.message, "bad 3");
    assert_eq!(err.pos, source.pos(0, 1));
}
