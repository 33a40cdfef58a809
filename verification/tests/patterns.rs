use ldraw::file::{Date, HistoryEntry, HistoryEntryAuthor, Meta, Release, Statement, UpdateTag};
use ldraw::load::base::{ParseErrorKind, ParseResult1, RealErrorKind, RealField};
use ldraw::load::meta::read_meta_statement;
use ldraw::load::base::parse_rgb;
use ldraw::text::split_fields;
use ldraw::types::RGB;
use regex::Regex;

fn reading(field: &str) -> RealField {
    match field.parse::<f64>() {
        Err(_) if field.is_empty() => RealField::Invalid(RealErrorKind::Empty),
        Err(_) => RealField::Invalid(RealErrorKind::Invalid),
        Ok(v) if v < 0.0 || v > 1.0 => RealField::OutsideUnitRange,
        Ok(_) => RealField::InUnitRange,
    }
}

fn meta_of(text: &str) -> Option<ParseResult1<Meta>> {
    let owned = split_fields(text);
    let fields: Vec<&str> = owned.iter().map(|f| f.as_str()).collect();
    let r: Vec<RealField> = fields.iter().map(|f| reading(f)).collect();
    read_meta_statement("p", 2, &fields, &r).map(|res| {
        res.map(|s| match s {
            Statement::Meta(m) => m,
            other => panic!("not a meta statement: {:?}", other),
        })
    })
}

/// A small deterministic generator of sample texts.
struct Samples {
    state: u64,
}

impl Samples {
    fn next(&mut self, bound: usize) -> usize {
        self.state = self.state.wrapping_mul(6364136223846793005).wrapping_add(1442695040888963407);
        ((self.state >> 33) as usize) % bound
    }

    fn text(&mut self, alphabet: &[char], max_len: usize) -> String {
        let len = self.next(max_len + 1);
        (0..len).map(|_| alphabet[self.next(alphabet.len())]).collect()
    }
}

fn two_digits(text: &str) -> Option<u8> {
    if text == "??" {
        None
    } else {
        Some(text.parse::<u8>().unwrap())
    }
}

#[test]
fn history_entries_agree_with_the_pattern() {
    let re = Regex::new(r"^(\d{4})-(\d{2}|\?\?)-(\d{2}|\?\?) (?:\[(.+)\]|\{(.+)\}) (.+)$").unwrap();
    let mut samples = Samples { state: 7 };
    let prefixes = ["2002-08-31 ", "1999-??-?? ", "2002-08-3 ", "2002-8-31 ", "20x2-01-01 ", ""];
    let alphabet = ['[', ']', '{', '}', ' ', 'a', 'b', '2', '-', '?'];
    for _ in 0..3000 {
        let prefix = prefixes[samples.next(prefixes.len())];
        let sample = format!("{}{}", prefix, samples.text(&alphabet, 12));
        let line = format!("0 !HISTORY {}", sample);
        let fields = split_fields(&line);
        let normalized = fields[2..].join(" ");
        let expected = match re.captures(&normalized) {
            None => Err(ParseErrorKind::InvalidHistory { text: normalized.clone() }),
            Some(c) => Ok(Meta::History(HistoryEntry {
                date: Date {
                    year: c[1].parse::<u16>().unwrap(),
                    month: two_digits(&c[2]),
                    day: two_digits(&c[3]),
                },
                author: match c.get(4) {
                    Some(name) => HistoryEntryAuthor::UserName(name.as_str().to_string()),
                    None => HistoryEntryAuthor::RealName(c[5].to_string()),
                },
                text: c[6].to_string(),
            })),
        };
        let ours = meta_of(&line).expect("a history line has an outcome").map_err(|e| e.error);
        assert_eq!(ours, expected, "{:?}", line);
    }
}

#[test]
fn update_tags_agree_with_the_pattern() {
    let re = Regex::new(r"^(\d{4})-(\d{2}|\?\?)(?:-(\d{2}|\?\?))?").unwrap();
    let mut samples = Samples { state: 11 };
    let alphabet = ['1', '9', '0', '-', '?', 'x'];
    for _ in 0..3000 {
        let tag = format!("{}{}", ["2004-", "1999", ""][samples.next(3)], samples.text(&alphabet, 9));
        if tag.is_empty() {
            continue;
        }
        let line = format!("0 !LDRAW_ORG Part UPDATE {}", tag);
        let expected = match re.captures(&tag) {
            None => Err(ParseErrorKind::InvalidUpdateTag { field: tag.clone() }),
            Some(c) => {
                let year = c[1].parse::<u16>().unwrap();
                let month = two_digits(&c[2]);
                match c.get(3) {
                    Some(day) => Ok(Some(UpdateTag::Date(Date { year, month, day: two_digits(day.as_str()) }))),
                    None => match month {
                        Some(release) => Ok(Some(UpdateTag::Release(Release { year, release }))),
                        None => Err(ParseErrorKind::UnknownRelease),
                    },
                }
            }
        };
        let ours = match meta_of(&line).expect("an update line has an outcome") {
            Ok(Meta::FileType(t)) => Ok(t.update_tag),
            Ok(other) => panic!("not a file type: {:?}", other),
            Err(e) => Err(e.error),
        };
        assert_eq!(ours, expected, "{:?}", line);
    }
}

#[test]
fn keywords_agree_with_std_splitting() {
    let mut samples = Samples { state: 3 };
    let alphabet = ['a', 'b', ',', ' ', '\t', '\u{a0}', '\u{3000}', 'é'];
    for _ in 0..3000 {
        let line = format!("0 !KEYWORDS x{}", samples.text(&alphabet, 14));
        let fields = split_fields(&line);
        let expected: Vec<String> = fields[2..]
            .join(" ")
            .split(',')
            .map(|s| s.trim())
            .filter(|s| !s.is_empty())
            .map(|s| s.to_string())
            .collect();
        assert_eq!(meta_of(&line), Some(Ok(Meta::Keywords(expected))), "{:?}", line);
    }
}

#[test]
fn rgb_values_agree_with_the_pattern() {
    let re = Regex::new(r"^(?:#|0x2)([[:xdigit:]]{2})([[:xdigit:]]{2})([[:xdigit:]]{2})$").unwrap();
    let mut samples = Samples { state: 5 };
    let alphabet = ['#', '0', 'x', '2', 'a', 'F', 'g', '9'];
    for _ in 0..3000 {
        let field = samples.text(&alphabet, 10);
        let expected = re.captures(&field).map(|c| {
            RGB(
                u8::from_str_radix(&c[1], 16).unwrap(),
                u8::from_str_radix(&c[2], 16).unwrap(),
                u8::from_str_radix(&c[3], 16).unwrap(),
            )
        });
        assert_eq!(parse_rgb("p", 1, &field).ok(), expected, "{:?}", field);
    }
}
