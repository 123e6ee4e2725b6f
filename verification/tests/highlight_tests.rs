use syntax_highlight::aggregate::SyntaxInfo;
use syntax_highlight::field::{
    get_syntax_highlights, ArgListSlot, Assertion, CondEndian, Condition, ExprSlot,
    FieldDescriptor, KeywordSpan, MapMode, PassedArgs, ReadMode,
};
use syntax_highlight::keywords::is_keyword;
use syntax_highlight::syntax::{IdentTok, LitKind, LitTok, Node, PathSeg};
use syntax_highlight::{Color, Highlight};

fn ident(name: &str, line: usize, start: usize, end: usize) -> IdentTok {
    IdentTok { name: name.to_string(), line, start, end }
}

fn plain_path(name: &str, line: usize, start: usize, end: usize) -> Node {
    Node::Path {
        qualified: false,
        segments: vec![PathSeg { ident: ident(name, line, start, end), has_args: false, args: vec![] }],
    }
}

fn lit(kind: LitKind, line: usize, start: usize, end: usize) -> Node {
    Node::Lit(LitTok { kind, start_line: line, start_col: start, end_line: line, end_col: end })
}

fn empty_field(ty: Node) -> FieldDescriptor {
    FieldDescriptor {
        ty,
        count: None,
        offset: None,
        pad_before: None,
        pad_after: None,
        align_before: None,
        align_after: None,
        seek_before: None,
        pad_size_to: None,
        offset_after: None,
        if_cond: None,
        magic: None,
        endian: CondEndian::Fixed,
        map_mode: MapMode::NoMap,
        args: PassedArgs::Absent,
        read_mode: ReadMode::Normal,
        assertions: vec![],
        keyword_spans: vec![],
    }
}

fn hl(start: usize, end: usize, color: Color) -> Highlight {
    Highlight { start, end, color }
}

fn line_of(info: &SyntaxInfo, line: usize) -> Vec<Highlight> {
    for ls in &info.lines {
        if ls.line == line {
            return ls.highlights.clone();
        }
    }
    panic!("no highlights recorded for line {}", line);
}

fn has_line(info: &SyntaxInfo, line: usize) -> bool {
    info.lines.iter().any(|ls| ls.line == line)
}

#[test]
fn keyword_table_hits_and_misses() {
    assert!(is_keyword("Vec"));
    assert!(is_keyword("u8"));
    assert!(is_keyword("try_map"));
    assert!(is_keyword("pad_size_to"));
    assert!(is_keyword("restore_position"));
    assert!(!is_keyword("vec"));
    assert!(!is_keyword("U8"));
    assert!(!is_keyword("foo"));
    assert!(!is_keyword(""));
    assert!(!is_keyword("Vecc"));
}

#[test]
fn type_with_only_keywords_yields_one_keyword_per_occurrence() {
    // conceptually `Vec<u8>` on line 1: `Vec` at columns 0..3, `u8` at 4..6
    let ty = Node::Path {
        qualified: false,
        segments: vec![PathSeg {
            ident: ident("Vec", 1, 0, 3),
            has_args: true,
            args: vec![plain_path("u8", 1, 4, 6)],
        }],
    };
    let info = get_syntax_highlights(&empty_field(ty));
    assert_eq!(info.lines.len(), 1);
    assert_eq!(
        line_of(&info, 1),
        vec![hl(0, 3, Color::Keyword), hl(4, 6, Color::Keyword)]
    );
}

#[test]
fn every_line_is_sorted_by_start_column() {
    // keyword spans arrive out of column order and overlap traversal output
    let ty = plain_path("u16", 2, 10, 13);
    let mut f = empty_field(ty);
    f.keyword_spans = vec![
        KeywordSpan { line: 2, start: 20, end: 25 },
        KeywordSpan { line: 2, start: 0, end: 4 },
        KeywordSpan { line: 1, start: 7, end: 9 },
    ];
    let info = get_syntax_highlights(&f);
    for ls in &info.lines {
        for w in ls.highlights.windows(2) {
            assert!(w[0].start <= w[1].start);
        }
    }
    assert_eq!(
        line_of(&info, 2),
        vec![hl(0, 4, Color::Keyword), hl(10, 13, Color::Keyword), hl(20, 25, Color::Keyword)]
    );
    assert_eq!(line_of(&info, 1), vec![hl(7, 9, Color::Keyword)]);
}

#[test]
fn single_line_literal_highlighted_multi_line_skipped() {
    let single = Node::Lit(LitTok {
        kind: LitKind::Str,
        start_line: 3,
        start_col: 8,
        end_line: 3,
        end_col: 14,
    });
    let multi = Node::Lit(LitTok {
        kind: LitKind::Str,
        start_line: 3,
        start_col: 8,
        end_line: 4,
        end_col: 2,
    });

    let mut f = empty_field(Node::Group { children: vec![] });
    f.magic = Some(ExprSlot::Parsed(single));
    let info = get_syntax_highlights(&f);
    assert_eq!(info.lines.len(), 1);
    assert_eq!(line_of(&info, 3), vec![hl(8, 14, Color::String)]);

    let mut g = empty_field(Node::Group { children: vec![] });
    g.magic = Some(ExprSlot::Parsed(multi));
    let info = get_syntax_highlights(&g);
    assert_eq!(info.lines.len(), 0);
}

#[test]
fn literal_categories() {
    let children = vec![
        lit(LitKind::Str, 1, 0, 4),
        lit(LitKind::ByteStr, 1, 5, 10),
        lit(LitKind::Byte, 1, 11, 15),
        lit(LitKind::Char, 1, 16, 19),
        lit(LitKind::Int, 1, 20, 22),
        lit(LitKind::Float, 1, 23, 27),
        lit(LitKind::Bool, 1, 28, 32),
        lit(LitKind::Other, 1, 33, 40),
    ];
    let mut f = empty_field(Node::Group { children: vec![] });
    f.count = Some(ExprSlot::Parsed(Node::Group { children }));
    let info = get_syntax_highlights(&f);
    assert_eq!(
        line_of(&info, 1),
        vec![
            hl(0, 4, Color::String),
            hl(5, 10, Color::String),
            hl(11, 15, Color::Char),
            hl(16, 19, Color::Char),
            hl(20, 22, Color::Number),
            hl(23, 27, Color::Number),
            hl(28, 32, Color::Number),
        ]
    );
}

#[test]
fn invalid_attribute_is_swallowed_silently() {
    let ty = plain_path("u32", 1, 0, 3);
    let mut f = empty_field(ty);
    f.count = Some(ExprSlot::Invalid);
    f.offset = Some(ExprSlot::Parsed(plain_path("offset", 2, 4, 10)));
    let info = get_syntax_highlights(&f);
    assert_eq!(info.lines.len(), 2);
    assert_eq!(line_of(&info, 1), vec![hl(0, 3, Color::Keyword)]);
    assert_eq!(line_of(&info, 2), vec![hl(4, 10, Color::Keyword)]);
}

#[test]
fn method_call_name_is_function_and_children_still_visited() {
    // conceptually `map.bar(count)` on line 1: `map` 0..3, `bar` 4..7, `count` 8..13
    let call = Node::MethodCall {
        name: ident("bar", 1, 4, 7),
        children: vec![plain_path("map", 1, 0, 3), plain_path("count", 1, 8, 13)],
    };
    let mut f = empty_field(Node::Group { children: vec![] });
    f.count = Some(ExprSlot::Parsed(call));
    let info = get_syntax_highlights(&f);
    assert_eq!(
        line_of(&info, 1),
        vec![hl(0, 3, Color::Keyword), hl(4, 7, Color::Function), hl(8, 13, Color::Keyword)]
    );
}

#[test]
fn method_name_overrides_keyword_classification() {
    // conceptually `x.count()` on line 1: `count` at 2..7 is a directive
    // keyword but sits in call-name position
    let call = Node::MethodCall {
        name: ident("count", 1, 2, 7),
        children: vec![plain_path("x", 1, 0, 1)],
    };
    let mut f = empty_field(Node::Group { children: vec![] });
    f.count = Some(ExprSlot::Parsed(call));
    let info = get_syntax_highlights(&f);
    assert_eq!(line_of(&info, 1), vec![hl(2, 7, Color::Function)]);
}

#[test]
fn bare_call_name_overrides_keyword_classification() {
    // conceptually `Vec(x)` on line 1: `Vec` 0..3, `x` 4..5
    let call = Node::Call {
        callee: Box::new(plain_path("Vec", 1, 0, 3)),
        args: vec![plain_path("x", 1, 4, 5)],
    };
    let mut f = empty_field(Node::Group { children: vec![] });
    f.count = Some(ExprSlot::Parsed(call));
    let info = get_syntax_highlights(&f);
    let hls = line_of(&info, 1);
    assert_eq!(hls, vec![hl(0, 3, Color::Function)]);
    assert!(!hls.iter().any(|h| h.color == Color::Keyword));
}

#[test]
fn qualified_callee_gets_no_function_highlight_but_is_descended() {
    // conceptually `path::u8(map)` on line 1: `path` 0..4, `u8` 6..8, `map` 9..12
    let callee = Node::Path {
        qualified: false,
        segments: vec![
            PathSeg { ident: ident("path", 1, 0, 4), has_args: false, args: vec![] },
            PathSeg { ident: ident("u8", 1, 6, 8), has_args: false, args: vec![] },
        ],
    };
    let call = Node::Call {
        callee: Box::new(callee),
        args: vec![plain_path("map", 1, 9, 12)],
    };
    let mut f = empty_field(Node::Group { children: vec![] });
    f.count = Some(ExprSlot::Parsed(call));
    let info = get_syntax_highlights(&f);
    assert_eq!(
        line_of(&info, 1),
        vec![hl(6, 8, Color::Keyword), hl(9, 12, Color::Keyword)]
    );
}

#[test]
fn keyword_span_overlapping_traversal_keeps_both() {
    let ty = plain_path("Vec", 1, 0, 3);
    let mut f = empty_field(ty);
    f.keyword_spans = vec![KeywordSpan { line: 1, start: 1, end: 4 }];
    let info = get_syntax_highlights(&f);
    assert_eq!(
        line_of(&info, 1),
        vec![hl(0, 3, Color::Keyword), hl(1, 4, Color::Keyword)]
    );
}

#[test]
fn equal_start_columns_keep_discovery_order() {
    let ty = Node::Group { children: vec![] };
    let mut f = empty_field(ty);
    f.keyword_spans = vec![
        KeywordSpan { line: 1, start: 5, end: 9 },
        KeywordSpan { line: 1, start: 2, end: 4 },
        KeywordSpan { line: 1, start: 5, end: 7 },
    ];
    let info = get_syntax_highlights(&f);
    assert_eq!(
        line_of(&info, 1),
        vec![hl(2, 4, Color::Keyword), hl(5, 9, Color::Keyword), hl(5, 7, Color::Keyword)]
    );
}

#[test]
fn all_attribute_slots_contribute_in_order() {
    let mut f = empty_field(plain_path("u8", 1, 0, 2));
    f.count = Some(ExprSlot::Parsed(plain_path("count", 2, 0, 5)));
    f.offset = Some(ExprSlot::Parsed(plain_path("offset", 2, 6, 12)));
    f.pad_before = Some(ExprSlot::Parsed(lit(LitKind::Int, 2, 13, 14)));
    f.if_cond = Some(Condition {
        condition: ExprSlot::Parsed(plain_path("is_big", 3, 0, 6)),
        alternate: ExprSlot::Parsed(lit(LitKind::Int, 3, 7, 8)),
    });
    f.magic = Some(ExprSlot::Parsed(lit(LitKind::Byte, 3, 9, 13)));
    f.endian = CondEndian::Cond(ExprSlot::Parsed(plain_path("big", 4, 0, 3)));
    f.map_mode = MapMode::Try(ExprSlot::Parsed(plain_path("try_map", 4, 4, 11)));
    f.read_mode = ReadMode::Calc(ExprSlot::Parsed(lit(LitKind::Int, 4, 12, 13)));
    f.assertions = vec![Assertion {
        condition: ExprSlot::Parsed(plain_path("assert", 5, 0, 6)),
        consequent: Some(ExprSlot::Parsed(lit(LitKind::Str, 5, 7, 12))),
    }];
    let info = get_syntax_highlights(&f);
    assert_eq!(line_of(&info, 1), vec![hl(0, 2, Color::Keyword)]);
    assert_eq!(
        line_of(&info, 2),
        vec![hl(0, 5, Color::Keyword), hl(6, 12, Color::Keyword), hl(13, 14, Color::Number)]
    );
    assert_eq!(
        line_of(&info, 3),
        vec![hl(0, 6, Color::Keyword), hl(7, 8, Color::Number), hl(9, 13, Color::Char)]
    );
    assert_eq!(
        line_of(&info, 4),
        vec![hl(0, 3, Color::Keyword), hl(4, 11, Color::Keyword), hl(12, 13, Color::Number)]
    );
    assert_eq!(
        line_of(&info, 5),
        vec![hl(0, 6, Color::Keyword), hl(7, 12, Color::String)]
    );
}

#[test]
fn fixed_endian_contributes_nothing() {
    let mut f = empty_field(Node::Group { children: vec![] });
    f.endian = CondEndian::Fixed;
    let info = get_syntax_highlights(&f);
    assert!(info.lines.is_empty());
}

#[test]
fn positional_and_tuple_and_named_args() {
    let mut f = empty_field(Node::Group { children: vec![] });
    f.args = PassedArgs::List(vec![
        ExprSlot::Parsed(plain_path("big", 1, 0, 3)),
        ExprSlot::Invalid,
        ExprSlot::Parsed(lit(LitKind::Int, 1, 4, 5)),
    ]);
    let info = get_syntax_highlights(&f);
    assert_eq!(line_of(&info, 1), vec![hl(0, 3, Color::Keyword), hl(4, 5, Color::Number)]);

    let mut g = empty_field(Node::Group { children: vec![] });
    g.args = PassedArgs::Tuple(ExprSlot::Parsed(lit(LitKind::Int, 2, 0, 1)));
    let info = get_syntax_highlights(&g);
    assert_eq!(line_of(&info, 2), vec![hl(0, 1, Color::Number)]);

    let mut h = empty_field(Node::Group { children: vec![] });
    h.args = PassedArgs::Named(vec![
        ArgListSlot::Invalid,
        ArgListSlot::Parsed(vec![
            Some(plain_path("little", 3, 0, 6)),
            None,
            Some(lit(LitKind::Bool, 3, 7, 11)),
        ]),
    ]);
    let info = get_syntax_highlights(&h);
    assert_eq!(line_of(&info, 3), vec![hl(0, 6, Color::Keyword), hl(7, 11, Color::Number)]);
}

#[test]
fn non_keyword_identifiers_yield_nothing() {
    let ty = plain_path("MyStruct", 1, 0, 8);
    let info = get_syntax_highlights(&empty_field(ty));
    assert!(info.lines.is_empty());
    assert!(!has_line(&info, 1));
}

#[test]
fn get_line_lookup() {
    let ty = plain_path("char", 7, 3, 7);
    let info = get_syntax_highlights(&empty_field(ty));
    let ls = info.get_line(7).expect("line 7 should be present");
    assert_eq!(ls.line, 7);
    assert_eq!(ls.highlights, vec![hl(3, 7, Color::Keyword)]);
    assert!(info.get_line(8).is_none());
}

#[test]
fn multi_line_keyword_span_is_trusted_verbatim() {
    // a pre-supplied span is appended with no single-line restriction
    let mut f = empty_field(Node::Group { children: vec![] });
    f.keyword_spans = vec![KeywordSpan { line: 9, start: 4, end: 2 }];
    let info = get_syntax_highlights(&f);
    assert_eq!(line_of(&info, 9), vec![hl(4, 2, Color::Keyword)]);
}
