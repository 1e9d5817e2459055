use vaultwarden_scim::filter::{parse_eq_filter, split_filter};
use vaultwarden_scim::json::{Json, Member};
use vaultwarden_scim::patch::{parse_group_patch, parse_user_patch, PatchOp, PatchOperation, PATCH_OP_URN};
use vaultwarden_scim::text;

/// Deterministic PRNG. Quality is irrelevant here, reproducibility is the point.
struct Lcg(u64);

impl Lcg {
    fn next(&mut self) -> u64 {
        self.0 = self.0.wrapping_mul(1_664_525).wrapping_add(1_013_904_223);
        self.0 >> 16
    }

    fn below(&mut self, n: usize) -> usize {
        if n == 0 {
            0
        } else {
            usize::try_from(self.next() % n as u64).unwrap_or(0)
        }
    }

    fn pick<'a, T>(&mut self, items: &'a [T]) -> &'a T {
        &items[self.below(items.len())]
    }
}

/// Fragments near the parser's decision boundaries.
const FRAGMENTS: &[&str] = &[
    "userName",
    "USERNAME",
    "externalId",
    "displayName",
    "",
    " ",
    "  ",
    "\t",
    "\n",
    "eq",
    "EQ",
    "Eq",
    "ne",
    "co",
    "sw",
    "\"",
    "\"\"",
    "\"x\"",
    "\"a b\"",
    "\"\\\"\"",
    "and",
    "or",
    "(",
    ")",
    "[",
    "]",
    "value",
    "members",
    "0",
    "-1",
    "null",
    "true",
    "\0",
    "é",
    "🙂",
    "%22",
    "\\",
    "'",
    "`",
    ";",
    "--",
];

#[test]
fn filter_parser_never_panics_and_never_mis_parses() {
    let mut rng = Lcg(0x5EED_1234);
    let mut accepted = 0_u32;

    for iteration in 0..20_000 {
        let parts = 1 + rng.below(6);
        let mut input = String::new();
        for _ in 0..parts {
            input.push_str(*rng.pick::<&str>(FRAGMENTS));
            if rng.below(3) == 0 {
                input.push(' ');
            }
        }

        // The contract: a Result, for any input, without unwinding.
        match parse_eq_filter(&input) {
            Err(error) => {
                assert_eq!(error.status.code, 400, "iteration {iteration}: input {input:?}");
                assert_eq!(error.scim_type, Some("invalidFilter"), "iteration {iteration}: input {input:?}");
            }
            Ok(filter) => {
                accepted += 1;
                assert_eq!(
                    filter.attribute,
                    filter.attribute.to_lowercase(),
                    "iteration {iteration}: attribute must be normalised, input {input:?}"
                );
                assert!(
                    !filter.attribute.is_empty(),
                    "iteration {iteration}: an empty attribute would match nothing meaningful, input {input:?}"
                );
                // Whatever was accepted must actually appear in the input, in
                // the order claimed.
                let lowered = input.to_lowercase();
                let at = lowered.find(&filter.attribute).expect("attribute must come from the input");
                assert!(
                    lowered[at..].contains(" eq") || lowered[at..].contains("\teq") || lowered[at..].contains("\neq"),
                    "iteration {iteration}: accepted without an eq operator, input {input:?}"
                );
                assert!(
                    input.contains(&filter.value) || filter.value.is_empty(),
                    "iteration {iteration}: value {:?} not present in input {input:?}",
                    filter.value
                );
            }
        }
    }

    // Require that the corpus still exercises the accept path.
    assert!(accepted > 0, "the corpus no longer reaches the accepting branch; the test proves nothing");
}

/// Fragments aimed at the PATCH path parser's boundaries.
const PATH_FRAGMENTS: &[&str] = &[
    "members",
    "MEMBERS",
    "[",
    "]",
    "value",
    "eq",
    "\"",
    "\"abc\"",
    "displayName",
    "active",
    ".",
    "..",
    "",
    " ",
    "externalId",
    "emails[type",
    "value]",
    "\0",
    "🙂",
    "%5B",
    "\\",
];

fn sample_value(which: usize) -> Option<Json> {
    match which {
        0 => Some(Json::Text("x".to_owned())),
        1 => None,
        2 => Some(Json::Array(vec![])),
        3 => Some(Json::Object(vec![Member { name: "value".to_owned(), value: Json::Text("y".to_owned()) }])),
        _ => Some(Json::Bool(true)),
    }
}

#[test]
fn patch_path_parser_never_panics_on_arbitrary_paths() {
    let mut rng = Lcg(0xC0FF_EE01);

    for iteration in 0..20_000 {
        let parts = 1 + rng.below(6);
        let mut path = String::new();
        for _ in 0..parts {
            path.push_str(*rng.pick::<&str>(PATH_FRAGMENTS));
        }

        let op = rng.pick(&["add", "remove", "replace", "ADD", "Remove", "bogus"]).to_string();
        let which = rng.below(5);
        let parsed = PatchOp {
            schemas: vec![PATCH_OP_URN.to_owned()],
            operations: vec![PatchOperation { op, path: Some(path.clone()), value: sample_value(which) }],
        };

        // Both parsers must answer, not unwind. Any Ok must be self-consistent.
        if let Ok(group_patch) = parse_group_patch(&parsed) {
            assert!(
                group_patch.member_count() < 10_000,
                "iteration {iteration}: implausible member count from path {path:?}"
            );
        }
        // Must answer rather than unwind; the value itself is not the point.
        drop(parse_user_patch(&parsed));
    }
}

#[test]
fn only_one_filter_form_is_supported() {
    for (input, attribute, value) in [
        ("userName eq \"a@b.c\"", "username", "a@b.c"),
        ("  USERNAME   Eq\t\"A B\"  ", "username", "A B"),
        ("externalId eq \"\"", "externalid", ""),
        ("Ünder eq \"x\"", "ünder", "x"),
    ] {
        let filter = parse_eq_filter(input).expect("must parse");
        assert_eq!((filter.attribute.as_str(), filter.value.as_str()), (attribute, value));
    }
    for input in [
        "userName eq \"a\" or userName eq \"b\"",
        "userName eq \"a\" and active eq true",
        "(userName eq \"a\")",
        "emails[type eq \"work\"].value eq \"x\"",
        "active eq true",
        "userName EQ unquoted",
        "userName co \"partial\"",
        "userName zz \"x\"",
        "userName",
        "",
    ] {
        let e = parse_eq_filter(input).expect_err("must be refused, not guessed at");
        assert_eq!((e.status.code, e.scim_type), (400, Some("invalidFilter")), "{input}");
    }
}

#[test]
fn filters_round_trip() {
    for attribute in ["userName", "emails.value", "x", "É"] {
        for value in ["", "v", "two words", "eq", "\\", "\u{3000}"] {
            let input = format!("{attribute} eq \"{value}\"");
            assert_eq!(split_filter(&input), Some((attribute, value)));
        }
    }
}

#[test]
fn white_space_is_that_of_unicode() {
    for code in 0..=0x10_FFFF_u32 {
        if let Some(c) = char::from_u32(code) {
            assert_eq!(text::is_whitespace(c), c.is_whitespace(), "{code:x}");
        }
    }
}

#[test]
fn text_helpers_agree_with_the_standard_library() {
    let samples = ["", " ", "a", "Ab", "aB ", " a b ", "\u{2003}x\u{85}", "éÉ", "🙂 b", "\"q\"", "\"", "\"\""];
    for s in samples {
        assert_eq!(text::trim_start(s), s.trim_start());
        assert_eq!(text::trim_end(s), s.trim_end());
        assert_eq!(text::is_blank(s), s.trim().is_empty());
        assert_eq!(text::char_count(s), s.chars().count());
        assert_eq!(text::split_once_whitespace(s), s.split_once(char::is_whitespace));
        assert_eq!(text::unquote(s), s.strip_prefix('"').and_then(|t| t.strip_suffix('"')));
        for t in samples {
            assert_eq!(text::eq_ignore_ascii_case(s, t), s.eq_ignore_ascii_case(t), "{s:?} {t:?}");
            assert_eq!(text::starts_with(s, t), s.starts_with(t));
            assert_eq!(text::contains(s, t), s.contains(t));
            assert_eq!(text::text_eq(s, t), s == t);
        }
    }
    for n in [0, 7, 10, 429, 1000, u64::MAX] {
        assert_eq!(text::decimal(n), n.to_string());
    }
}
