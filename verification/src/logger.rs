//! The level of log messages that are written.

use vstd::prelude::*;
use vstd::slice::slice_subrange;

use crate::text::{
    chars_of, find_char, lemma_position_of, position_of, same_but_case, same_text, string_of, trim,
    trimmed,
};

verus! {

/// How much is logged, from nothing to everything.
#[derive(Clone, Copy, Debug, PartialEq, Eq, Structural)]
pub enum LevelFilter {
    Off,
    Error,
    Warn,
    Info,
    Debug,
    Trace,
}

/// The level of a name, which may be written in any case.
pub open spec fn level_of(name: Seq<char>) -> Option<LevelFilter> {
    if same_but_case(name, "OFF"@) {
        Some(LevelFilter::Off)
    } else if same_but_case(name, "ERROR"@) {
        Some(LevelFilter::Error)
    } else if same_but_case(name, "WARN"@) {
        Some(LevelFilter::Warn)
    } else if same_but_case(name, "INFO"@) {
        Some(LevelFilter::Info)
    } else if same_but_case(name, "DEBUG"@) {
        Some(LevelFilter::Debug)
    } else if same_but_case(name, "TRACE"@) {
        Some(LevelFilter::Trace)
    } else {
        None
    }
}

/// `<log::LevelFilter as std::str::FromStr>::from_str`.
///
/// It compares the name with those of the six levels without regard to the
/// case of ASCII letters, and reports an error for any other name.
#[verifier::external_body]
fn level_named(name: &str) -> (result: Option<LevelFilter>)
    ensures
        result == level_of(name@),
{
    name.parse::<log::LevelFilter>().ok().map(|level| match level {
        log::LevelFilter::Off => LevelFilter::Off,
        log::LevelFilter::Error => LevelFilter::Error,
        log::LevelFilter::Warn => LevelFilter::Warn,
        log::LevelFilter::Info => LevelFilter::Info,
        log::LevelFilter::Debug => LevelFilter::Debug,
        log::LevelFilter::Trace => LevelFilter::Trace,
    })
}

/// One directive of a comma-separated list.
#[derive(Clone, Copy, Debug, PartialEq, Eq, Structural)]
pub enum Directive {
    /// A level for everything.
    Global(Option<LevelFilter>),
    /// A level for this program.
    Own(Option<LevelFilter>),
    /// A level for another program, or nothing.
    Other,
}

/// What one directive, without white space around it, says.
pub open spec fn directive_of(text: Seq<char>) -> Directive {
    let equals = position_of(text, '=');
    if equals < text.len() {
        if text.take(equals) == "nibari"@ {
            Directive::Own(level_of(text.skip(equals + 1)))
        } else {
            Directive::Other
        }
    } else if text.len() > 0 {
        Directive::Global(level_of(text))
    } else {
        Directive::Other
    }
}

/// The directives of a comma-separated list.
pub open spec fn directives_of(text: Seq<char>) -> Seq<Directive>
    decreases text.len(),
{
    let comma = position_of(text, ',');
    if 0 <= comma < text.len() {
        seq![directive_of(trimmed(text.take(comma)))] + directives_of(text.skip(comma + 1))
    } else {
        seq![directive_of(trimmed(text))]
    }
}

/// The last readable level for everything.
pub open spec fn global_level(directives: Seq<Directive>) -> Option<LevelFilter>
    decreases directives.len(),
{
    if directives.len() == 0 {
        None
    } else {
        match directives.last() {
            Directive::Global(Some(level)) => Some(level),
            _ => global_level(directives.drop_last()),
        }
    }
}

/// The last readable level for this program.
pub open spec fn own_level(directives: Seq<Directive>) -> Option<LevelFilter>
    decreases directives.len(),
{
    if directives.len() == 0 {
        None
    } else {
        match directives.last() {
            Directive::Own(Some(level)) => Some(level),
            _ => own_level(directives.drop_last()),
        }
    }
}

/// The level that a list of directives sets: a level for this program takes
/// precedence over one for everything.
pub open spec fn level_set(directives: Seq<Directive>) -> Option<LevelFilter> {
    match own_level(directives) {
        Some(level) => Some(level),
        None => global_level(directives),
    }
}

fn parse_directive(text: &[char]) -> (result: Directive)
    ensures
        result == directive_of(text@),
{
    let equals = find_char(text, '=');
    if equals < text.len() {
        let target = string_of(slice_subrange(text, 0, equals));
        assert(target@ =~= text@.take(equals as int));
        if same_text(target.as_str(), "nibari") {
            let name = string_of(slice_subrange(text, equals + 1, text.len()));
            assert(name@ =~= text@.skip(equals + 1));
            Directive::Own(level_named(name.as_str()))
        } else {
            Directive::Other
        }
    } else if text.len() > 0 {
        let name = string_of(text);
        Directive::Global(level_named(name.as_str()))
    } else {
        Directive::Other
    }
}

/// The directives of a comma-separated list.
fn parse_directives(text: &str) -> (result: Vec<Directive>)
    ensures
        result@ == directives_of(text@),
{
    let characters = chars_of(text);
    let mut result: Vec<Directive> = Vec::new();
    let mut start: usize = 0;
    assert(text@.skip(0) =~= text@);
    assert(result@ + directives_of(text@) =~= directives_of(text@));
    loop
        invariant
            characters@ == text@,
            start <= characters@.len(),
            result@ + directives_of(characters@.skip(start as int)) == directives_of(text@),
        decreases characters@.len() - start,
    {
        let rest = slice_subrange(characters.as_slice(), start, characters.len());
        assert(rest@ =~= characters@.skip(start as int));
        let comma = find_char(rest, ',');
        let ghost before = result@;
        if comma < rest.len() {
            let directive = parse_directive(trim(slice_subrange(rest, 0, comma)));
            assert(rest@.subrange(0, comma as int) =~= rest@.take(comma as int));
            result.push(directive);
            assert(rest@.skip(comma + 1) =~= characters@.skip(start + comma + 1));
            assert(before + (seq![directive] + directives_of(rest@.skip(comma + 1))) =~= result@
                + directives_of(rest@.skip(comma + 1)));
            start = start + comma + 1;
        } else {
            let directive = parse_directive(trim(rest));
            result.push(directive);
            assert(before + seq![directive] =~= result@);
            return result;
        }
    }
}

/// The level that some directives set.
pub fn level_from(directives: &Vec<Directive>) -> (result: Option<LevelFilter>)
    ensures
        result == level_set(directives@),
{
    let mut global: Option<LevelFilter> = None;
    let mut own: Option<LevelFilter> = None;
    let mut i: usize = 0;
    while i < directives.len()
        invariant
            i <= directives@.len(),
            global == global_level(directives@.take(i as int)),
            own == own_level(directives@.take(i as int)),
        decreases directives@.len() - i,
    {
        assert(directives@.take(i + 1).drop_last() =~= directives@.take(i as int));
        match directives[i] {
            Directive::Global(Some(level)) => global = Some(level),
            Directive::Own(Some(level)) => own = Some(level),
            _ => {},
        }
        i += 1;
    }
    assert(directives@.take(i as int) =~= directives@);
    match own {
        Some(level) => Some(level),
        None => global,
    }
}

/// Reads the level from a list such as `warn,nibari=trace`.
pub fn parse_level(directives: &str) -> (result: Option<LevelFilter>)
    ensures
        result == level_set(directives_of(directives@)),
{
    let parsed = parse_directives(directives);
    level_from(&parsed)
}

/// A level for this program wins over one for everything, whichever comes first; of several
/// the last one counts, and what is no level changes nothing.
pub proof fn law_last_levels_count(directives: Seq<Directive>, level: LevelFilter)
    ensures
        level_set(directives.push(Directive::Own(Some(level)))) == Some(level),
        own_level(directives) is None ==> level_set(
            directives.push(Directive::Global(Some(level))),
        ) == Some(level),
        own_level(directives) is Some ==> level_set(
            directives.push(Directive::Global(Some(level))),
        ) == level_set(directives),
        level_set(directives.push(Directive::Other)) == level_set(directives),
        level_set(directives.push(Directive::Own(None))) == level_set(directives),
        level_set(directives.push(Directive::Global(None))) == level_set(directives),
        level_set(Seq::empty()) is None,
{
    assert(directives.push(Directive::Own(Some(level))).drop_last() =~= directives);
    assert(directives.push(Directive::Global(Some(level))).drop_last() =~= directives);
    assert(directives.push(Directive::Other).drop_last() =~= directives);
    assert(directives.push(Directive::Own(None)).drop_last() =~= directives);
    assert(directives.push(Directive::Global(None)).drop_last() =~= directives);
}

/// A directive with an equals sign is for the program named before it, and one without is
/// for everything.
pub proof fn law_directives_name_their_program(name: Seq<char>, level: Seq<char>)
    requires
        !name.contains('='),
    ensures
        name == "nibari"@ ==> directive_of(name + seq!['='] + level) == Directive::Own(
            level_of(level),
        ),
        name != "nibari"@ ==> directive_of(name + seq!['='] + level) == Directive::Other,
        name.len() > 0 ==> directive_of(name) == Directive::Global(level_of(name)),
        name.len() == 0 ==> directive_of(name) == Directive::Other,
{
    let text = name + seq!['='] + level;
    lemma_position_of(text, '=');
    lemma_position_of(name, '=');
    let equals = position_of(text, '=');
    assert(text[name.len() as int] == '=');
    assert(text.contains('='));
    if equals < name.len() {
        assert(name[equals] == '=');
    }
    assert(equals == name.len());
    assert(text.take(equals) =~= name);
    assert(text.skip(equals + 1) =~= level);
}

/// Directives are separated by commas, and blanks around them do not count.
pub proof fn law_directives_are_separated_by_commas(first: Seq<char>, rest: Seq<char>)
    requires
        !first.contains(','),
    ensures
        directives_of(first + seq![','] + rest) == seq![directive_of(trimmed(first))]
            + directives_of(rest),
        directives_of(first) == seq![directive_of(trimmed(first))],
{
    let text = first + seq![','] + rest;
    lemma_position_of(text, ',');
    lemma_position_of(first, ',');
    let comma = position_of(text, ',');
    assert(text[first.len() as int] == ',');
    assert(text.contains(','));
    if comma < first.len() {
        assert(first[comma] == ',');
    }
    assert(comma == first.len());
    assert(text.take(comma) =~= first);
    assert(text.skip(comma + 1) =~= rest);
}

/// Levels are named as they are, in small or large letters.
pub proof fn law_levels_have_names()
    ensures
        level_of("OFF"@) == Some(LevelFilter::Off),
        forall|name: Seq<char>| #[trigger]
            level_of(name) matches Some(level) ==> same_but_case(
                name,
                match level {
                    LevelFilter::Off => "OFF"@,
                    LevelFilter::Error => "ERROR"@,
                    LevelFilter::Warn => "WARN"@,
                    LevelFilter::Info => "INFO"@,
                    LevelFilter::Debug => "DEBUG"@,
                    LevelFilter::Trace => "TRACE"@,
                },
            ),
        forall|name: Seq<char>| #[trigger]
            level_of(name) is None ==> !same_but_case(name, "INFO"@) && !same_but_case(
                name,
                "DEBUG"@,
            ) && !same_but_case(name, "WARN"@) && !same_but_case(name, "ERROR"@)
                && !same_but_case(name, "TRACE"@),
{
}

} // verus!
