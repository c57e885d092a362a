//! File names that are safe to create: what the sanitizer keeps of a name.

use vstd::prelude::*;
use vstd::string::StringExecFns;
use crate::kinds::LinkKind;
use crate::text::texts;

verus! {

/// The longest file name, in bytes of UTF-8, that the sanitizer lets through.
pub const MAX_NAME_BYTES: usize = 255;

/// Characters that a file system reserves: `/ ? < > \ : * | "`.
pub open spec fn is_reserved_char(c: char) -> bool {
    c == '/' || c == '?' || c == '<' || c == '>' || c == '\\' || c == ':' || c == '*' || c == '|'
        || c == '"'
}

/// Control characters: U+0000 to U+001F and U+0080 to U+009F.
pub open spec fn is_control_char(c: char) -> bool {
    c as u32 <= 0x1f || 0x80 <= c as u32 <= 0x9f
}

/// Characters that the sanitizer lets through.
pub open spec fn is_kept_char(c: char) -> bool {
    !is_reserved_char(c) && !is_control_char(c)
}

/// A name made of dots only, such as `.` and `..`.
pub open spec fn is_dots(s: Seq<char>) -> bool {
    s.len() > 0 && forall|i: int| 0 <= i < s.len() ==> s[i] == '.'
}

/// An ASCII letter in lower case; any other character unchanged.
pub open spec fn lower(c: char) -> char {
    if 'A' <= c <= 'Z' {
        ((c as u8 + 32) as u8) as char
    } else {
        c
    }
}

/// Whether `s` begins with the three letters `a`, `b`, `c`, in either case.
pub open spec fn starts_with_word(s: Seq<char>, a: char, b: char, c: char) -> bool {
    s.len() >= 3 && lower(s[0]) == a && lower(s[1]) == b && lower(s[2]) == c
}

/// Whether a name ends at position `k` or goes on with an extension there.
pub open spec fn stem_ends_at(s: Seq<char>, k: int) -> bool {
    s.len() == k || (s.len() > k && s[k] == '.')
}

/// A name that Windows reserves for a device: `con`, `prn`, `aux`, `nul`,
/// `com0` to `com9`, `lpt0` to `lpt9`, in either case, alone or with an
/// extension.
pub open spec fn is_device_name(s: Seq<char>) -> bool {
    ||| (starts_with_word(s, 'c', 'o', 'n') || starts_with_word(s, 'p', 'r', 'n')
        || starts_with_word(s, 'a', 'u', 'x') || starts_with_word(s, 'n', 'u', 'l'))
        && stem_ends_at(s, 3)
    ||| (starts_with_word(s, 'c', 'o', 'm') || starts_with_word(s, 'l', 'p', 't')) && s.len() >= 4
        && '0' <= s[3] <= '9' && stem_ends_at(s, 4)
}

/// `s` without the dots and spaces at its end.
pub open spec fn without_tail(s: Seq<char>) -> Seq<char>
    decreases s.len(),
{
    if s.len() > 0 && (s.last() == '.' || s.last() == ' ') {
        without_tail(s.drop_last())
    } else {
        s
    }
}

/// The number of bytes that a character takes in UTF-8.
pub open spec fn char_width(c: char) -> nat {
    if c as u32 <= 0x7f {
        1
    } else if c as u32 <= 0x7ff {
        2
    } else if c as u32 <= 0xffff {
        3
    } else {
        4
    }
}

/// The number of bytes that a text takes in UTF-8.
pub open spec fn byte_len(s: Seq<char>) -> nat
    decreases s.len(),
{
    if s.len() == 0 {
        0
    } else {
        byte_len(s.drop_last()) + char_width(s.last())
    }
}

/// The longest prefix of `s` that takes at most `limit` bytes.
pub open spec fn within(s: Seq<char>, limit: nat) -> Seq<char>
    decreases s.len(),
{
    if s.len() == 0 {
        s
    } else if byte_len(s) <= limit {
        s
    } else {
        within(s.drop_last(), limit)
    }
}

/// What the sanitizer makes of a name. Reserved and control characters are
/// removed; a name of dots alone becomes empty; with `windows`, a device name
/// becomes empty and dots and spaces are taken from the end; last, the name is
/// cut to the longest prefix of at most 255 bytes.
pub open spec fn sanitized(name: Seq<char>, windows: bool) -> Seq<char> {
    let kept = name.filter(|c: char| is_kept_char(c));
    let named = if is_dots(kept) {
        Seq::empty()
    } else {
        kept
    };
    let portable = if windows {
        without_tail(
            if is_device_name(named) {
                Seq::empty()
            } else {
                named
            },
        )
    } else {
        named
    };
    within(portable, MAX_NAME_BYTES as nat)
}

/// `sanitize_filename::sanitize_with_options`, with truncation on and an
/// empty replacement: the result is the name as `sanitized` describes it.
#[verifier::external_body]
fn sanitize_with(name: &str, windows: bool) -> (r: String)
    ensures
        r@ == sanitized(name@, windows),
{
    sanitize_filename::sanitize_with_options(
        name,
        sanitize_filename::Options { windows, truncate: true, replacement: "" },
    )
}

/// Whether every character of `s` is one that the sanitizer lets through.
pub open spec fn all_kept(s: Seq<char>) -> bool {
    forall|i: int| 0 <= i < s.len() ==> is_kept_char(#[trigger] s[i])
}

/// Whether the sanitizer leaves `s` as it is: `s` holds no reserved or
/// control character, is no name of dots alone, takes at most 255 bytes and,
/// with `windows`, is no device name and ends in neither a dot nor a space.
pub open spec fn is_clean(s: Seq<char>, windows: bool) -> bool {
    &&& all_kept(s)
    &&& !is_dots(s)
    &&& byte_len(s) <= MAX_NAME_BYTES
    &&& windows ==> !is_device_name(s) && without_tail(s) == s
}

proof fn lemma_filter_keeps_all(s: Seq<char>)
    requires
        all_kept(s),
    ensures
        s.filter(|c: char| is_kept_char(c)) == s,
    decreases s.len(),
{
    reveal(Seq::filter);
    if s.len() > 0 {
        assert(is_kept_char(s[s.len() - 1]));
        assert forall|i: int| 0 <= i < s.drop_last().len() implies is_kept_char(
            #[trigger] s.drop_last()[i],
        ) by {
            assert(s.drop_last()[i] == s[i]);
        }
        lemma_filter_keeps_all(s.drop_last());
        assert(s.drop_last().push(s.last()) == s);
    }
}

proof fn lemma_without_tail_is_prefix(s: Seq<char>)
    ensures
        without_tail(s).len() <= s.len(),
        without_tail(s) == s.take(without_tail(s).len() as int),
    decreases s.len(),
{
    if s.len() > 0 && (s.last() == '.' || s.last() == ' ') {
        lemma_without_tail_is_prefix(s.drop_last());
        let n = without_tail(s).len() as int;
        assert(s.drop_last().take(n) == s.take(n));
    } else {
        assert(s.take(s.len() as int) == s);
    }
}

proof fn lemma_within_is_prefix(s: Seq<char>, limit: nat)
    ensures
        within(s, limit).len() <= s.len(),
        within(s, limit) == s.take(within(s, limit).len() as int),
        byte_len(within(s, limit)) <= limit,
    decreases s.len(),
{
    if s.len() == 0 {
        assert(s.take(0) == s);
    } else if byte_len(s) <= limit {
        assert(s.take(s.len() as int) == s);
    } else {
        lemma_within_is_prefix(s.drop_last(), limit);
        let n = within(s, limit).len() as int;
        assert(s.drop_last().take(n) == s.take(n));
    }
}

/// The sanitizer's result holds no reserved and no control character and
/// takes at most 255 bytes.
pub proof fn law_sanitized_is_safe(name: Seq<char>, windows: bool)
    ensures
        all_kept(sanitized(name, windows)),
        byte_len(sanitized(name, windows)) <= MAX_NAME_BYTES,
{
    let kept = name.filter(|c: char| is_kept_char(c));
    let named = if is_dots(kept) {
        Seq::empty()
    } else {
        kept
    };
    let stem = if is_device_name(named) {
        Seq::empty()
    } else {
        named
    };
    let portable = if windows {
        without_tail(stem)
    } else {
        named
    };
    let r = sanitized(name, windows);
    lemma_without_tail_is_prefix(stem);
    lemma_within_is_prefix(portable, MAX_NAME_BYTES as nat);
    assert forall|i: int| 0 <= i < r.len() implies is_kept_char(#[trigger] r[i]) by {
        assert(r[i] == portable[i]);
        if windows {
            assert(portable[i] == stem[i]);
        }
        assert(portable[i] == kept[i]);
        name.lemma_filter_pred(|c: char| is_kept_char(c), i);
    }
}

/// The sanitizer leaves a clean name as it is.
pub proof fn law_clean_name_is_kept(name: Seq<char>, windows: bool)
    requires
        is_clean(name, windows),
    ensures
        sanitized(name, windows) == name,
{
    lemma_filter_keeps_all(name);
}

/// Sanitizing a second time changes nothing, unless the first result is a
/// name that the sanitizer itself would not let through: cutting a long name
/// can leave dots alone or, with `windows`, a device name or a dot or space at
/// the end.
pub proof fn law_sanitize_twice(name: Seq<char>, windows: bool)
    requires
        !is_dots(sanitized(name, windows)),
        windows ==> !is_device_name(sanitized(name, windows)) && without_tail(
            sanitized(name, windows),
        ) == sanitized(name, windows),
    ensures
        sanitized(sanitized(name, windows), windows) == sanitized(name, windows),
{
    law_sanitized_is_safe(name, windows);
    law_clean_name_is_kept(sanitized(name, windows), windows);
}

/// In which order a file name lists the contributors and the title.
#[derive(Clone, Copy, Debug, PartialEq, Eq, Structural)]
pub enum NameOrder {
    /// `<contributors> - <title>.ogg`, sanitized as a whole.
    ContributorsFirst,
    /// `<title> - <contributors>`, sanitized, and `.ogg` after it.
    TitleFirst,
}

/// How a deployment names its files.
#[derive(Clone, Copy, Debug, PartialEq, Eq, Structural)]
pub struct NamingRules {
    pub order: NameOrder,
    /// Whether names must also be valid on Windows.
    pub windows: bool,
}

/// The parts in order, with `sep` between each two.
pub open spec fn joined(parts: Seq<Seq<char>>, sep: Seq<char>) -> Seq<char>
    decreases parts.len(),
{
    if parts.len() == 0 {
        Seq::empty()
    } else if parts.len() == 1 {
        parts[0]
    } else {
        joined(parts.drop_last(), sep) + sep + parts.last()
    }
}

/// The text of an item's file name that is sanitized. With the contributors
/// first it holds the extension; with the title first it does not.
pub open spec fn display_name(order: NameOrder, contributors: Seq<Seq<char>>, title: Seq<char>) -> Seq<
    char,
> {
    match order {
        NameOrder::ContributorsFirst => joined(contributors, ", "@) + " - "@ + title + ".ogg"@,
        NameOrder::TitleFirst => title + " - "@ + joined(contributors, ", "@),
    }
}

/// The name of the file that an item is delivered to. With the contributors
/// first, the name with its extension is sanitized as a whole, so that a long
/// name is cut within the extension's room too. With the title first, the
/// name is sanitized and the extension follows it.
pub open spec fn file_name_of(
    rules: NamingRules,
    contributors: Seq<Seq<char>>,
    title: Seq<char>,
) -> Seq<char> {
    let clean = sanitized(display_name(rules.order, contributors, title), rules.windows);
    match rules.order {
        NameOrder::ContributorsFirst => clean,
        NameOrder::TitleFirst => clean + ".ogg"@,
    }
}

/// The most bytes that a file name takes: with the title first, the
/// extension comes on top of what the sanitizer lets through.
pub open spec fn max_file_name_bytes(order: NameOrder) -> nat {
    match order {
        NameOrder::ContributorsFirst => MAX_NAME_BYTES as nat,
        NameOrder::TitleFirst => (MAX_NAME_BYTES + 4) as nat,
    }
}

/// The parts in order, with `sep` between each two.
pub fn join(parts: &[String], sep: &str) -> (r: String)
    ensures
        r@ == joined(texts(parts@), sep@),
{
    let mut out = String::new();
    let mut i: usize = 0;
    while i < parts.len()
        invariant
            i <= parts.len(),
            out@ == joined(texts(parts@).take(i as int), sep@),
        decreases parts.len() - i,
    {
        let ghost before = texts(parts@).take(i as int);
        let ghost after = texts(parts@).take(i + 1);
        assert(after.drop_last() == before);
        assert(after.last() == parts@[i as int]@);
        if i > 0 {
            out.append(sep);
        }
        out.append(parts[i].as_str());
        assert(out@ == joined(after, sep@)) by {
            if i == 0 {
                assert(before.len() == 0);
                assert(Seq::<char>::empty() + parts@[0]@ == parts@[0]@);
            }
        }
        i += 1;
    }
    assert(texts(parts@).take(parts.len() as int) == texts(parts@));
    out
}

/// The name of the file that an item is delivered to: its contributors and
/// its title in the order that the rules name, made safe for the file
/// system, with the extension `.ogg`.
pub fn file_name(rules: NamingRules, contributors: &[String], title: &str) -> (r: String)
    ensures
        r@ == file_name_of(rules, texts(contributors@), title@),
{
    let names = join(contributors, ", ");
    let mut raw = String::new();
    match rules.order {
        NameOrder::ContributorsFirst => {
            raw.append(names.as_str());
            raw.append(" - ");
            raw.append(title);
            raw.append(".ogg");
            assert(raw@ == display_name(rules.order, texts(contributors@), title@));
            sanitize_with(raw.as_str(), rules.windows)
        },
        NameOrder::TitleFirst => {
            raw.append(title);
            raw.append(" - ");
            raw.append(names.as_str());
            assert(raw@ == display_name(rules.order, texts(contributors@), title@));
            let mut name = sanitize_with(raw.as_str(), rules.windows);
            name.append(".ogg");
            name
        },
    }
}

/// The directory, below the output directory, that collects what a link of
/// the given kind expands to when output is grouped by source: a playlist
/// and an album each get a directory of their own under `playlists/` and
/// `albums/`, named by the sanitized container name; single tracks share
/// `tracks`; episodes and shows are not grouped.
pub open spec fn group_of(kind: LinkKind, name: Seq<char>, windows: bool) -> Option<Seq<char>> {
    match kind {
        LinkKind::Playlist => Some("playlists/"@ + sanitized(name, windows)),
        LinkKind::Album => Some("albums/"@ + sanitized(name, windows)),
        LinkKind::Track => Some("tracks"@),
        LinkKind::Episode | LinkKind::Show => None,
    }
}

/// The group directory for what a link expands to. `name` is the name of the
/// container that the link names; for a single item it is not looked at.
pub fn group_label(kind: LinkKind, name: &str, windows: bool) -> (r: Option<String>)
    ensures
        r is Some <==> group_of(kind, name@, windows) is Some,
        r matches Some(label) ==> Some(label@) == group_of(kind, name@, windows),
{
    match kind {
        LinkKind::Playlist => {
            let mut label = String::from_str("playlists/");
            label.append(sanitize_with(name, windows).as_str());
            Some(label)
        },
        LinkKind::Album => {
            let mut label = String::from_str("albums/");
            label.append(sanitize_with(name, windows).as_str());
            Some(label)
        },
        LinkKind::Track => Some(String::from_str("tracks")),
        LinkKind::Episode | LinkKind::Show => None,
    }
}

proof fn lemma_byte_len_concat(a: Seq<char>, b: Seq<char>)
    ensures
        byte_len(a + b) == byte_len(a) + byte_len(b),
    decreases b.len(),
{
    if b.len() == 0 {
        assert(a + b == a);
    } else {
        assert((a + b).drop_last() == a + b.drop_last());
        lemma_byte_len_concat(a, b.drop_last());
    }
}

proof fn lemma_extension()
    ensures
        ".ogg"@.len() == 4,
        all_kept(".ogg"@),
        byte_len(".ogg"@) == 4,
{
    reveal_strlit(".ogg");
    reveal_with_fuel(byte_len, 5);
    let e = ".ogg"@;
    assert(e.drop_last().len() == 3);
    assert(e.drop_last().drop_last().len() == 2);
    assert(e.drop_last().drop_last().drop_last().len() == 1);
    assert(e.drop_last().drop_last().drop_last().drop_last().len() == 0);
}

/// Whatever the contributors and the title hold, the file name holds none
/// of the characters that a file system reserves, and no control character.
/// It takes at most 255 bytes where the contributors stand first, and at
/// most 259 where the title does.
pub proof fn law_file_name_is_safe(
    rules: NamingRules,
    contributors: Seq<Seq<char>>,
    title: Seq<char>,
)
    ensures
        forall|i: int|
            0 <= i < file_name_of(rules, contributors, title).len() ==> !is_reserved_char(
                #[trigger] file_name_of(rules, contributors, title)[i],
            ) && !is_control_char(file_name_of(rules, contributors, title)[i]),
        byte_len(file_name_of(rules, contributors, title)) <= max_file_name_bytes(rules.order),
{
    let clean = sanitized(display_name(rules.order, contributors, title), rules.windows);
    let name = file_name_of(rules, contributors, title);
    law_sanitized_is_safe(display_name(rules.order, contributors, title), rules.windows);
    lemma_extension();
    lemma_byte_len_concat(clean, ".ogg"@);
    assert forall|i: int| 0 <= i < name.len() implies is_kept_char(#[trigger] name[i]) by {
        if i < clean.len() {
            assert(name[i] == clean[i]);
        } else {
            assert(name[i] == ".ogg"@[i - clean.len()]);
        }
    }
}

/// With the title first, a file name always ends in its extension, however
/// long the title and the contributors are.
pub proof fn law_title_first_keeps_extension(
    windows: bool,
    contributors: Seq<Seq<char>>,
    title: Seq<char>,
)
    ensures
        ({
            let name = file_name_of(
                NamingRules { order: NameOrder::TitleFirst, windows },
                contributors,
                title,
            );
            name.len() >= 4 && name.skip(name.len() - 4) == ".ogg"@
        }),
{
    lemma_extension();
    let rules = NamingRules { order: NameOrder::TitleFirst, windows };
    let clean = sanitized(display_name(rules.order, contributors, title), windows);
    let name = file_name_of(rules, contributors, title);
    assert(name.skip(name.len() - 4) =~= ".ogg"@);
}

} // verus!
