use vda_decoder::cursor::{
    parse_511, parse_512, parse_513, parse_515, parse_517, parse_518, parse_519, peek, Options,
};
use vda_decoder::error::{DecodeError, ErrorKind};
use vda_decoder::field::Class;
use vda_decoder::grammar::{
    abruf_chain, parse, parse_abrufe, satz513_repeat, satz517_chain, trailer, Block, Document, Trailer,
};
use vda_decoder::record::{Abruf, Satz511, Satz512};
use vda_decoder::satz::Satz;
use vda_decoder::vda::{assemble, collect, decode, decode_with};

const LINE: usize = 129;

fn padded(start: &str) -> Vec<u8> {
    let mut line = start.as_bytes().to_vec();
    while line.len() < 128 {
        line.push(b' ');
    }
    line
}

fn line_511() -> Vec<u8> {
    padded("51101KUNDE0001LIEFER002")
}

fn line_512(werk: &str) -> Vec<u8> {
    let mut s = String::new();
    s.push_str("51201");
    s.push_str(werk);
    s.push_str("000000042");
    s.push_str("240101");
    s.push_str("000000041");
    s.push_str("231201");
    s.push_str("SACHNUMMER-KUNDE-00001");
    s.push_str("SACHNUMMER-LIEFERANT-1");
    s.push_str("0000000007");
    s.push_str("  ");
    s.push_str("ABL01");
    s.push_str("ZK01");
    s.push_str("ST");
    padded(&s)
}

fn slot(date: u32, amount: u64) -> String {
    format!("{:06}{:09}", date, amount)
}

/// A record of type 513 whose call-offs are dated `first`, `first + 1`, ...
fn line_513(first: u32) -> Vec<u8> {
    let mut s = String::new();
    s.push_str("51301");
    s.push_str(&" ".repeat(43));
    for k in 0..5u32 {
        s.push_str(&slot(first + k, 10 * u64::from(first + k)));
    }
    padded(&s)
}

/// A record of type 514 whose call-offs are dated `first`, `first + 1`, ...
fn line_514(first: u32) -> Vec<u8> {
    let mut s = String::new();
    s.push_str("51401");
    for k in 0..8u32 {
        s.push_str(&slot(first + k, 10 * u64::from(first + k)));
    }
    padded(&s)
}

fn plain(code: &str) -> Vec<u8> {
    let mut s = String::from(code);
    s.push_str("01");
    padded(&s)
}

fn text_of(lines: &[Vec<u8>]) -> Vec<u8> {
    let mut text = Vec::new();
    for line in lines {
        text.extend_from_slice(line);
        text.push(b'\n');
    }
    text
}

fn dated(first: u32, count: u32) -> Vec<Abruf> {
    (0..count).map(|k| Abruf { date: first + k, amount: 10 * u64::from(first + k) }).collect()
}

fn minimal() -> Vec<Vec<u8>> {
    vec![line_511(), line_512("W01"), line_513(100), plain("519")]
}

fn at(line: usize, column: usize, kind: ErrorKind) -> DecodeError {
    DecodeError { kind, offset: line * LINE + column }
}

#[test]
fn minimal_document_decodes() {
    let text = text_of(&minimal());
    let vda = decode(&text).unwrap();
    assert_eq!(vda.kunde, b"KUNDE0001".to_vec());
    assert_eq!(vda.lieferant, b"LIEFER002".to_vec());
    assert_eq!(vda.werk, b"W01".to_vec());
    assert_eq!(vda.abladestelle, b"ABL01".to_vec());
    assert_eq!(vda.lieferabruf_neu, 42);
    assert_eq!(vda.lieferabruf_alt, 41);
    assert_eq!(vda.sachnummer, b"SACHNUMMER-KUNDE-00001".to_vec());
    assert_eq!(vda.mengeneinheit, b"ST".to_vec());
    assert_eq!(vda.rueckstandmenge, None);
    assert_eq!(vda.sofortbedarf, None);
    assert_eq!(vda.abrufe.len(), 5);
    assert_eq!(vda.abrufe, dated(100, 5));
    assert_eq!(vda.abrufe[0], Abruf { date: 100, amount: 1000 });
    assert_eq!(vda.abrufe[4], Abruf { date: 104, amount: 1040 });
}

#[test]
fn minimal_document_parses_into_its_segments() {
    let text = text_of(&minimal());
    let document = parse(&text, Options::default()).unwrap();
    assert_eq!(
        document,
        Document {
            satz511: Satz511 { kunde: b"KUNDE0001".to_vec(), lieferant: b"LIEFER002".to_vec() },
            satz512: Satz512 {
                werk_kunde: b"W01".to_vec(),
                lieferabruf_neu: 42,
                lieferabruf_alt: 41,
                sachnummer_kunde: b"SACHNUMMER-KUNDE-00001".to_vec(),
                abladestelle: b"ABL01".to_vec(),
                mengeneinheit: b"ST".to_vec(),
            },
            blocks: vec![Block { satz: Satz::S513, abrufe: dated(100, 5) }],
            later_satz512: 0,
            trailer: Trailer { satz515: false, satz517_depth: 0, satz518: false },
        }
    );
}

#[test]
fn the_last_line_needs_no_newline() {
    let mut text = text_of(&minimal());
    text.pop();
    assert_eq!(decode(&text).unwrap().abrufe.len(), 5);
}

#[test]
fn document_without_terminator_ends_unexpectedly() {
    let mut lines = minimal();
    lines.pop();
    let text = text_of(&lines);
    assert_eq!(
        decode(&text),
        Err(DecodeError {
            kind: ErrorKind::UnexpectedEnd { expected: Satz::S519 },
            offset: text.len()
        })
    );
    assert_eq!(text.len(), 3 * LINE);
}

#[test]
fn a_text_that_ends_early_names_the_record_it_lacks() {
    assert_eq!(
        decode(b""),
        Err(DecodeError { kind: ErrorKind::UnexpectedEnd { expected: Satz::S511 }, offset: 0 })
    );
    let text = text_of(&[line_511()]);
    assert_eq!(decode(&text), Err(at(1, 0, ErrorKind::UnexpectedEnd { expected: Satz::S512 })));
    let text = text_of(&[line_511(), line_512("W01")]);
    assert_eq!(decode(&text), Err(at(2, 0, ErrorKind::UnexpectedEnd { expected: Satz::S513 })));
    let text = text_of(&[line_511(), line_512("W01"), line_513(1), line_512("W02")]);
    assert_eq!(decode(&text), Err(at(4, 0, ErrorKind::UnexpectedEnd { expected: Satz::S513 })));
    let text = text_of(&[line_511(), line_512("W01"), line_513(1), plain("517")]);
    assert_eq!(decode(&text), Err(at(4, 0, ErrorKind::UnexpectedEnd { expected: Satz::S518 })));
}

#[test]
fn repeated_blocks_keep_the_order_of_the_text() {
    let text = text_of(&[
        line_511(),
        line_512("W01"),
        line_513(100),
        line_512("W02"),
        line_513(200),
        line_512("W03"),
        line_513(300),
        plain("519"),
    ]);
    let vda = decode(&text).unwrap();
    assert_eq!(vda.abrufe.len(), 5 * 3);
    let mut expected = dated(100, 5);
    expected.extend(dated(200, 5));
    expected.extend(dated(300, 5));
    assert_eq!(vda.abrufe, expected);
    // Only the first record of type 512 supplies fields.
    assert_eq!(vda.werk, b"W01".to_vec());

    let document = parse(&text, Options::default()).unwrap();
    assert_eq!(document.later_satz512, 2);
    assert_eq!(document.blocks.len(), 3);
    assert!(document.blocks.iter().all(|b| b.satz == Satz::S513 && b.abrufe.len() == 5));
    assert_eq!(document.satz512.werk_kunde, b"W01".to_vec());
}

#[test]
fn blocks_of_eight_follow_the_blocks_of_five() {
    let text = text_of(&[
        line_511(),
        line_512("W01"),
        line_513(100),
        line_512("W02"),
        line_513(200),
        line_514(300),
        plain("515"),
        line_514(400),
        line_514(500),
        plain("515"),
        plain("519"),
    ]);
    let document = parse(&text, Options::default()).unwrap();
    assert_eq!(document.blocks.len(), 5);
    assert_eq!(document.blocks[1], Block { satz: Satz::S513, abrufe: dated(200, 5) });
    assert_eq!(document.blocks[2], Block { satz: Satz::S514, abrufe: dated(300, 8) });
    assert_eq!(document.blocks[4], Block { satz: Satz::S514, abrufe: dated(500, 8) });
    assert_eq!(document.later_satz512, 1);
    assert_eq!(document.trailer, Trailer { satz515: false, satz517_depth: 0, satz518: false });

    let vda = assemble(document);
    assert_eq!(vda.abrufe.len(), 5 * 2 + 8 * 3);
    let mut expected = dated(100, 5);
    expected.extend(dated(200, 5));
    expected.extend(dated(300, 8));
    expected.extend(dated(400, 8));
    expected.extend(dated(500, 8));
    assert_eq!(vda.abrufe, expected);
}

#[test]
fn a_second_515_belongs_to_the_trailer() {
    let text = text_of(&[
        line_511(),
        line_512("W01"),
        line_513(100),
        line_514(300),
        plain("515"),
        plain("515"),
        plain("519"),
    ]);
    let document = parse(&text, Options::default()).unwrap();
    assert_eq!(document.trailer, Trailer { satz515: true, satz517_depth: 0, satz518: false });
    let text = text_of(&[line_511(), line_512("W01"), line_513(100), plain("515"), plain("519")]);
    let document = parse(&text, Options::default()).unwrap();
    assert_eq!(document.trailer, Trailer { satz515: true, satz517_depth: 0, satz518: false });
}

fn with_chain(depth: usize) -> Vec<u8> {
    let mut lines = vec![line_511(), line_512("W01"), line_513(100)];
    for _ in 0..depth {
        lines.push(plain("517"));
    }
    lines.push(plain("518"));
    lines.push(plain("519"));
    text_of(&lines)
}

#[test]
fn chain_of_depth_0() {
    let document = parse(&with_chain(0), Options::default()).unwrap();
    assert_eq!(document.trailer, Trailer { satz515: false, satz517_depth: 0, satz518: true });
}

#[test]
fn chain_of_depth_1() {
    let document = parse(&with_chain(1), Options::default()).unwrap();
    assert_eq!(document.trailer, Trailer { satz515: false, satz517_depth: 1, satz518: false });
}

#[test]
fn chain_of_depth_50() {
    let text = with_chain(50);
    let document = parse(&text, Options::default()).unwrap();
    assert_eq!(document.trailer, Trailer { satz515: false, satz517_depth: 50, satz518: false });
    assert_eq!(decode(&text).unwrap().abrufe, dated(100, 5));
}

#[test]
fn chain_of_great_depth_costs_no_stack() {
    let depth = 20_000;
    let document = parse(&with_chain(depth), Options::default()).unwrap();
    assert_eq!(document.trailer.satz517_depth, depth);
}

#[test]
fn chain_ends_at_its_518_and_the_trailer_may_hold_one_more() {
    let mut lines = vec![line_511(), line_512("W01"), line_513(100)];
    lines.extend([plain("515"), plain("517"), plain("517"), plain("518"), plain("518"), plain("519")]);
    let document = parse(&text_of(&lines), Options::default()).unwrap();
    assert_eq!(document.trailer, Trailer { satz515: true, satz517_depth: 2, satz518: true });

    let text = text_of(&lines);
    let chain_at = 4 * LINE;
    assert_eq!(satz517_chain(&text, chain_at, Options::default()), Ok((2, 7 * LINE)));
    assert_eq!(
        trailer(&text, 3 * LINE, Options::default()),
        Ok((Trailer { satz515: true, satz517_depth: 2, satz518: true }, 8 * LINE))
    );
}

#[test]
fn chain_without_its_518_fails() {
    let text = text_of(&[line_511(), line_512("W01"), line_513(100), plain("517"), plain("519")]);
    assert_eq!(
        decode(&text),
        Err(at(4, 0, ErrorKind::HeaderMismatch { expected: Satz::S518, found: *b"519" }))
    );
    assert_eq!(
        satz517_chain(&text, 2 * LINE, Options::default()),
        Err(at(2, 0, ErrorKind::HeaderMismatch { expected: Satz::S517, found: *b"513" }))
    );
}

#[test]
fn records_out_of_order_fail_on_the_header() {
    let text = text_of(&[line_511(), line_513(100), plain("519")]);
    assert_eq!(
        decode(&text),
        Err(at(1, 0, ErrorKind::HeaderMismatch { expected: Satz::S512, found: *b"513" }))
    );
    let text = text_of(&[line_512("W01"), line_513(100), plain("519")]);
    assert_eq!(
        decode(&text),
        Err(at(0, 0, ErrorKind::HeaderMismatch { expected: Satz::S511, found: *b"512" }))
    );
    let text = text_of(&[line_511(), line_512("W01"), line_513(1), line_514(2), line_513(3), plain("519")]);
    assert_eq!(
        decode(&text),
        Err(at(4, 0, ErrorKind::HeaderMismatch { expected: Satz::S519, found: *b"513" }))
    );
    let text = text_of(&[line_511(), line_512("W01"), line_513(1), padded("51601"), plain("519")]);
    assert_eq!(
        decode(&text),
        Err(at(3, 0, ErrorKind::HeaderMismatch { expected: Satz::S519, found: *b"516" }))
    );
}

#[test]
fn a_failure_inside_a_taken_production_is_final() {
    // The line opens with 515, so the production is taken; its bad length
    // is then no reason to treat it as absent.
    let mut short = plain("515");
    short.truncate(100);
    let text = text_of(&[line_511(), line_512("W01"), line_513(1), short, plain("519")]);
    assert_eq!(
        decode(&text),
        Err(at(3, 5, ErrorKind::FieldWidthMismatch { width: 123, available: 95 }))
    );
    let mut bad = line_514(7);
    bad[20] = b'x';
    let text = text_of(&[line_511(), line_512("W01"), line_513(1), bad, plain("519")]);
    assert_eq!(
        decode(&text),
        Err(at(3, 20, ErrorKind::RepeatCountMismatch { required: 8, completed: 1 }))
    );
    let mut bad = line_512("W02");
    bad[30] = b'?';
    let text = text_of(&[line_511(), line_512("W01"), line_513(1), bad, line_513(2), plain("519")]);
    assert_eq!(
        decode(&text),
        Err(at(3, 30, ErrorKind::UnexpectedCharacter { character: b'?' }))
    );
}

#[test]
fn failures_carry_the_offset_within_the_text() {
    let mut lines = minimal();
    lines[1][8] = b' ';
    for column in 9..17 {
        lines[1][column] = b' ';
    }
    assert_eq!(decode(&text_of(&lines)), Err(at(1, 8, ErrorKind::NumericFormatError)));
    let mut lines = minimal();
    lines[2][3] = b'x';
    assert_eq!(
        decode(&text_of(&lines)),
        Err(at(2, 3, ErrorKind::UnexpectedCharacter { character: b'x' }))
    );
    let mut lines = minimal();
    lines[0][10] = 0xE4;
    assert_eq!(
        decode(&text_of(&lines)),
        Err(at(0, 10, ErrorKind::UnexpectedCharacter { character: 0xE4 }))
    );
}

#[test]
fn lines_of_another_length_fail() {
    let mut lines = minimal();
    lines[3].push(b' ');
    let text = text_of(&lines);
    assert_eq!(
        decode(&text),
        Err(at(3, 5, ErrorKind::FieldWidthMismatch { width: 123, available: 124 }))
    );
    let mut lines = minimal();
    lines[2].truncate(60);
    assert_eq!(
        decode(&text_of(&lines)),
        Err(at(2, 48, ErrorKind::RepeatCountMismatch { required: 5, completed: 0 }))
    );
    let mut lines = minimal();
    lines[0].truncate(2);
    assert_eq!(
        decode(&text_of(&lines)),
        Err(at(0, 0, ErrorKind::FieldWidthMismatch { width: 3, available: 2 }))
    );
    // A carriage return in front of the newline is one column too many.
    let mut lines = minimal();
    for line in lines.iter_mut() {
        line.push(b'\r');
    }
    assert_eq!(
        decode(&text_of(&lines)),
        Err(at(0, 23, ErrorKind::FieldWidthMismatch { width: 105, available: 106 }))
    );
}

#[test]
fn an_empty_line_is_a_line_too_short() {
    let mut text = text_of(&[line_511(), line_512("W01"), line_513(1)]);
    text.push(b'\n');
    text.extend_from_slice(&text_of(&[plain("519")]));
    assert_eq!(
        decode(&text),
        Err(at(3, 0, ErrorKind::FieldWidthMismatch { width: 3, available: 0 }))
    );
}

#[test]
fn nothing_may_follow_the_end_record() {
    let mut text = text_of(&minimal());
    text.push(b'\n');
    assert_eq!(
        decode(&text),
        Err(at(4, 0, ErrorKind::UnexpectedCharacter { character: b'\n' }))
    );
    let mut lines = minimal();
    lines.push(plain("519"));
    assert_eq!(
        decode(&text_of(&lines)),
        Err(at(4, 0, ErrorKind::UnexpectedCharacter { character: b'5' }))
    );
}

#[test]
fn filler_is_any_content_unless_the_options_say_blank() {
    let mut lines = minimal();
    lines[3][64] = b'#';
    lines[0][127] = b'#';
    let text = text_of(&lines);
    assert!(decode(&text).is_ok());
    assert!(decode_with(&text, Options::default()).is_ok());
    assert_eq!(
        decode_with(&text, Options::uniform(Class::Blank)),
        Err(at(0, 127, ErrorKind::UnexpectedCharacter { character: b'#' }))
    );
    let mut options = Options::uniform(Class::Any);
    options.satz519 = Class::Blank;
    assert_eq!(
        decode_with(&text, options),
        Err(at(3, 64, ErrorKind::UnexpectedCharacter { character: b'#' }))
    );
    options.satz519 = Class::Any;
    options.satz512 = Class::Blank;
    assert!(decode_with(&text, options).is_ok());
    assert!(decode_with(&text_of(&minimal()), Options::uniform(Class::Blank)).is_ok());
}

#[test]
fn options_give_the_class_of_each_record_type() {
    let mut options = Options::default();
    assert_eq!(options, Options::uniform(Class::Any));
    options.satz517 = Class::Blank;
    assert_eq!(options.filler(Satz::S517), Class::Blank);
    assert_eq!(options.filler(Satz::S518), Class::Any);
    let blank = Options::uniform(Class::Blank);
    for satz in [Satz::S511, Satz::S512, Satz::S513, Satz::S514, Satz::S515, Satz::S517, Satz::S518, Satz::S519] {
        assert_eq!(blank.filler(satz), Class::Blank);
    }
}

#[test]
fn peek_looks_at_the_code_of_the_line_at_the_cursor() {
    let text = text_of(&minimal());
    assert_eq!(peek(&text, 0), Some(Satz::S511));
    assert_eq!(peek(&text, LINE), Some(Satz::S512));
    assert_eq!(peek(&text, 3 * LINE), Some(Satz::S519));
    assert_eq!(peek(&text, 4 * LINE), None);
    assert_eq!(peek(&text, 4 * LINE + 7), None);
    assert_eq!(peek(&text, 1), None);
    assert_eq!(peek(b"51\n1", 0), None);
    assert_eq!(peek(b"5\n11", 0), None);
    assert_eq!(peek(b"\n511", 0), None);
    assert_eq!(peek(b"\n511", 1), Some(Satz::S511));
    assert_eq!(peek(b"519", 0), Some(Satz::S519));
    assert_eq!(peek(b"51", 0), None);
    assert_eq!(peek(b"516xx", 0), None);
}

#[test]
fn records_are_read_at_the_cursor() {
    let text = text_of(&[line_511(), line_512("W09"), line_513(7), plain("515"), plain("517"), plain("518"), plain("519")]);
    let (record, next) = parse_511(&text, 0, Class::Blank).unwrap();
    assert_eq!(record.kunde, b"KUNDE0001".to_vec());
    assert_eq!(next, LINE);
    let (record, next) = parse_512(&text, next, Class::Blank).unwrap();
    assert_eq!(record.werk_kunde, b"W09".to_vec());
    assert_eq!(next, 2 * LINE);
    let (items, next) = parse_513(&text, next, Class::Blank).unwrap();
    assert_eq!(items, dated(7, 5));
    assert_eq!(parse_515(&text, next, Class::Blank), Ok(4 * LINE));
    assert_eq!(parse_517(&text, 4 * LINE, Class::Blank), Ok(5 * LINE));
    assert_eq!(parse_518(&text, 5 * LINE, Class::Blank), Ok(6 * LINE));
    assert_eq!(parse_519(&text, 6 * LINE, Class::Blank), Ok(7 * LINE));
    assert_eq!(
        parse_519(&text, 7 * LINE, Class::Blank),
        Err(at(7, 0, ErrorKind::UnexpectedEnd { expected: Satz::S519 }))
    );
    assert_eq!(
        parse_519(&text, 9 * LINE, Class::Blank),
        Err(at(9, 0, ErrorKind::UnexpectedEnd { expected: Satz::S519 }))
    );
    assert_eq!(
        parse_518(&text, 6 * LINE, Class::Blank),
        Err(at(6, 0, ErrorKind::HeaderMismatch { expected: Satz::S518, found: *b"519" }))
    );
}

#[test]
fn repetitions_stop_at_the_first_line_of_another_code() {
    let text = text_of(&[line_512("W02"), line_513(1), line_512("W03"), line_513(2), line_514(3), plain("515"), line_514(4), plain("519")]);
    let (blocks, next) = satz513_repeat(&text, 0, Options::default()).unwrap();
    assert_eq!(blocks.len(), 2);
    assert_eq!(next, 4 * LINE);
    let (blocks, next) = abruf_chain(&text, next, Options::default()).unwrap();
    assert_eq!(blocks, vec![
        Block { satz: Satz::S514, abrufe: dated(3, 8) },
        Block { satz: Satz::S514, abrufe: dated(4, 8) },
    ]);
    assert_eq!(next, 7 * LINE);
    assert_eq!(abruf_chain(&text, next, Options::default()), Ok((Vec::new(), next)));
    assert_eq!(satz513_repeat(&text, next, Options::default()), Ok((Vec::new(), next)));
    assert_eq!(satz513_repeat(&text, text.len(), Options::default()), Ok((Vec::new(), text.len())));
    assert_eq!(abruf_chain(&text, text.len() + 5, Options::default()), Ok((Vec::new(), text.len() + 5)));
    let (blocks, later, next) = parse_abrufe(&text, LINE, Options::default()).unwrap();
    assert_eq!(blocks.len(), 4);
    assert_eq!(later, 1);
    assert_eq!(next, 7 * LINE);
}

#[test]
fn collect_puts_the_blocks_one_behind_the_other() {
    let blocks = vec![
        Block { satz: Satz::S513, abrufe: dated(1, 5) },
        Block { satz: Satz::S514, abrufe: dated(50, 8) },
        Block { satz: Satz::S514, abrufe: Vec::new() },
        Block { satz: Satz::S513, abrufe: dated(90, 5) },
    ];
    let mut expected = dated(1, 5);
    expected.extend(dated(50, 8));
    expected.extend(dated(90, 5));
    assert_eq!(collect(&blocks), expected);
    assert_eq!(collect(&Vec::new()), Vec::new());
}

#[test]
fn decode_is_parse_and_assemble() {
    let text = text_of(&[line_511(), line_512("W01"), line_513(1), line_514(9), plain("518"), plain("519")]);
    let document = parse(&text, Options::default()).unwrap();
    assert_eq!(decode(&text), Ok(assemble(document)));
}
