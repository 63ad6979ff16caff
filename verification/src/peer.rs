//! How a client is named in the log when its traffic came through a proxy.
use axum::http::header::ToStrError;
use axum::http::{HeaderMap, HeaderValue};
use vstd::prelude::*;

verus! {

/// The header in which a proxy names the clients it speaks for.
pub const FORWARDED_FOR: &'static str = "x-forwarded-for";

/// `http::HeaderMap`, the headers of a request.
#[verifier::external_type_specification]
#[verifier::external_body]
#[verifier::reject_recursive_types(T)]
pub struct ExHeaderMap<T>(HeaderMap<T>);

/// `http::HeaderValue`, the value of a header.
#[verifier::external_type_specification]
#[verifier::external_body]
pub struct ExHeaderValue(HeaderValue);

/// `http::header::ToStrError`, which says that a value is no visible text.
#[verifier::external_type_specification]
#[verifier::external_body]
pub struct ExToStrError(ToStrError);

/// The headers that a map holds: the first value of each, by the name in lower case.
pub uninterp spec fn first_values(headers: HeaderMap) -> Map<Seq<char>, Seq<u8>>;

/// The bytes that a header value holds.
pub uninterp spec fn value_bytes(value: HeaderValue) -> Seq<u8>;

/// Whether this is a header name as the map keeps it, made of lower case letters and hyphens.
pub open spec fn is_plain_header_name(name: Seq<char>) -> bool {
    &&& 0 < name.len() <= 64
    &&& forall|i: int| 0 <= i < name.len() ==> 'a' <= #[trigger] name[i] <= 'z' || name[i] == '-'
}

/// Whether a byte is a visible ASCII character, a space or a tab.
pub open spec fn is_visible(b: u8) -> bool {
    32 <= b < 127 || b == 9
}

/// Whether a character is a visible ASCII character, a space or a tab.
pub open spec fn is_visible_char(ch: char) -> bool {
    ' ' <= ch <= '~' || ch == '\t'
}

/// ASCII bytes as characters.
pub open spec fn ascii_text(bytes: Seq<u8>) -> Seq<char> {
    bytes.map_values(|b: u8| b as char)
}

/// `HeaderMap::get`, called with a name in lower case, finds the first value of that header.
#[verifier::external_body]
fn header_value<'a>(headers: &'a HeaderMap, name: &str) -> (r: Option<&'a HeaderValue>)
    requires
        is_plain_header_name(name@),
    ensures
        r is Some <==> first_values(*headers).contains_key(name@),
        r matches Some(value) ==> value_bytes(*value) == first_values(*headers)[name@],
{
    headers.get(name)
}

/// `HeaderValue::to_str` gives the value as text, unless some byte of it is not visible ASCII.
pub assume_specification[ HeaderValue::to_str ](value: &HeaderValue) -> (r: Result<
    &str,
    ToStrError,
>)
    ensures
        r is Ok <==> forall|i: int|
            0 <= i < value_bytes(*value).len() ==> is_visible(#[trigger] value_bytes(*value)[i]),
        r matches Ok(text) ==> text@ == ascii_text(value_bytes(*value)),
;

/// The text before the first comma.
pub open spec fn before_comma(text: Seq<char>) -> Seq<char>
    decreases text.len(),
{
    if text.len() == 0 || text[0] == ',' {
        Seq::empty()
    } else {
        seq![text[0]] + before_comma(text.drop_first())
    }
}

/// Whether a character is a blank. Of the visible characters no other is white space.
pub open spec fn is_blank(ch: char) -> bool {
    ch == ' ' || ch == '\t'
}

/// Whether `inner` is `text` without the blanks at its ends.
pub open spec fn is_trimmed(text: Seq<char>, inner: Seq<char>) -> bool {
    exists|from: int, to: int| #[trigger]
        text.subrange(from, to) == inner && {
            &&& 0 <= from <= to <= text.len()
            &&& forall|i: int| 0 <= i < from ==> is_blank(#[trigger] text[i])
            &&& forall|i: int| to <= i < text.len() ==> is_blank(#[trigger] text[i])
            &&& from < to ==> !is_blank(text[from]) && !is_blank(text[to - 1])
        }
}

/// The text of a header, if there is such a header and all its bytes are visible.
pub open spec fn header_text(values: Map<Seq<char>, Seq<u8>>, name: Seq<char>) -> Option<
    Seq<char>,
> {
    if values.contains_key(name) && forall|i: int|
        0 <= i < values[name].len() ==> is_visible(#[trigger] values[name][i]) {
        Some(ascii_text(values[name]))
    } else {
        None
    }
}

/// The first name in a list separated by commas, without the blanks around it; nothing where it is
/// empty.
pub fn first_listed(text: &str) -> (r: Option<String>)
    requires
        forall|i: int| 0 <= i < text@.len() ==> is_visible_char(#[trigger] text@[i]),
    ensures
        r matches Some(name) ==> name@.len() > 0 && is_trimmed(before_comma(text@), name@),
        r is None ==> is_trimmed(before_comma(text@), Seq::empty()),
{
    let mut chars: Vec<char> = Vec::new();
    let mut listed = true;
    for ch in iter: text.chars()
        invariant
            iter.seq() == text@,
            listed ==> chars@ == text@.take(iter.index() as int),
            listed ==> forall|i: int| 0 <= i < iter.index() ==> text@[i] != ',',
            !listed ==> chars@ == before_comma(text@),
    {
        if listed {
            if ch == ',' {
                listed = false;
                proof {
                    comma_ends_prefix(text@, iter.index() as int);
                }
            } else {
                chars.push(ch);
                assert(text@.take(iter.index() + 1) =~= text@.take(iter.index() as int).push(ch));
            }
        }
    }
    proof {
        if listed {
            no_comma_keeps_all(text@);
            assert(text@.take(text@.len() as int) =~= text@);
        }
    }
    let mut from: usize = 0;
    while from < chars.len() && (chars[from] == ' ' || chars[from] == '\t')
        invariant
            from <= chars.len(),
            forall|i: int| 0 <= i < from ==> is_blank(#[trigger] chars@[i]),
        decreases chars.len() - from,
    {
        from = from + 1;
    }
    let mut to: usize = chars.len();
    while to > from && (chars[to - 1] == ' ' || chars[to - 1] == '\t')
        invariant
            from <= to <= chars.len(),
            forall|i: int| to <= i < chars.len() ==> is_blank(#[trigger] chars@[i]),
        decreases to,
    {
        to = to - 1;
    }
    assert(is_trimmed(before_comma(text@), chars@.subrange(from as int, to as int)));
    if from == to {
        assert(chars@.subrange(from as int, to as int) =~= Seq::empty());
        return None;
    }
    let mut name = String::new();
    let mut i: usize = from;
    while i < to
        invariant
            from <= i <= to <= chars.len(),
            name@ == chars@.subrange(from as int, i as int),
        decreases to - i,
    {
        name.push(chars[i]);
        assert(chars@.subrange(from as int, i + 1) =~= chars@.subrange(from as int, i as int).push(
            chars@[i as int],
        ));
        i = i + 1;
    }
    Some(name)
}

proof fn comma_ends_prefix(text: Seq<char>, k: int)
    requires
        0 <= k < text.len(),
        text[k] == ',',
        forall|i: int| 0 <= i < k ==> text[i] != ',',
    ensures
        before_comma(text) == text.take(k),
    decreases text.len(),
{
    if k == 0 {
        assert(text.take(0) =~= Seq::empty());
    } else {
        comma_ends_prefix(text.drop_first(), k - 1);
        assert(text.take(k) =~= seq![text[0]] + text.drop_first().take(k - 1));
    }
}

proof fn no_comma_keeps_all(text: Seq<char>)
    requires
        forall|i: int| 0 <= i < text.len() ==> text[i] != ',',
    ensures
        before_comma(text) == text,
    decreases text.len(),
{
    if text.len() > 0 {
        no_comma_keeps_all(text.drop_first());
        assert(text =~= seq![text[0]] + text.drop_first());
    }
}

/// The client that the proxy names first, if it names one.
pub fn forwarded_for(headers: &HeaderMap) -> (r: Option<String>)
    ensures
        match header_text(first_values(*headers), "x-forwarded-for"@) {
            Some(text) => match r {
                Some(name) => name@.len() > 0 && is_trimmed(before_comma(text), name@),
                None => is_trimmed(before_comma(text), Seq::empty()),
            },
            None => r is None,
        },
{
    proof {
        reveal_strlit("x-forwarded-for");
    }
    match header_value(headers, FORWARDED_FOR) {
        Some(value) => match value.to_str() {
            Ok(text) => first_listed(text),
            Err(_) => None,
        },
        None => None,
    }
}

/// A text has only one trimmed form.
pub proof fn trimming_is_unique(text: Seq<char>, a: Seq<char>, b: Seq<char>)
    requires
        is_trimmed(text, a),
        is_trimmed(text, b),
    ensures
        a == b,
{
    let (f, t) = choose|from: int, to: int| #[trigger]
        text.subrange(from, to) == a && {
            &&& 0 <= from <= to <= text.len()
            &&& forall|i: int| 0 <= i < from ==> is_blank(#[trigger] text[i])
            &&& forall|i: int| to <= i < text.len() ==> is_blank(#[trigger] text[i])
            &&& from < to ==> !is_blank(text[from]) && !is_blank(text[to - 1])
        };
    let (g, u) = choose|from: int, to: int| #[trigger]
        text.subrange(from, to) == b && {
            &&& 0 <= from <= to <= text.len()
            &&& forall|i: int| 0 <= i < from ==> is_blank(#[trigger] text[i])
            &&& forall|i: int| to <= i < text.len() ==> is_blank(#[trigger] text[i])
            &&& from < to ==> !is_blank(text[from]) && !is_blank(text[to - 1])
        };
    assert(a =~= b);
}

/// The first item of a list is what stands before its first comma, or all of it where it has none.
pub proof fn the_first_item_ends_at_the_first_comma(text: Seq<char>)
    ensures
        before_comma(text).len() <= text.len(),
        before_comma(text) == text.take(before_comma(text).len() as int),
        forall|i: int| 0 <= i < before_comma(text).len() ==> #[trigger] text[i] != ',',
        before_comma(text).len() < text.len() ==> text[before_comma(text).len() as int] == ',',
    decreases text.len(),
{
    if text.len() == 0 || text[0] == ',' {
        assert(before_comma(text) =~= text.take(0));
    } else {
        let rest = text.drop_first();
        the_first_item_ends_at_the_first_comma(rest);
        let n = before_comma(rest).len() as int;
        assert(before_comma(text) =~= text.take(n + 1)) by {
            assert forall|i: int| 0 <= i < n implies before_comma(rest)[i] == rest[i] by {}
        }
        assert forall|i: int| 0 <= i < n + 1 implies #[trigger] text[i] != ',' by {
            if i > 0 {
                assert(rest[i - 1] == text[i]);
            }
        }
    }
}

/// To trim a text is to drop spaces and tabs at its ends, all of them and nothing else.
pub proof fn trimming_drops_spaces_and_tabs_at_the_ends(text: Seq<char>, inner: Seq<char>)
    requires
        is_trimmed(text, inner),
    ensures
        exists|from: int, to: int|
            {
                &&& 0 <= from <= to <= text.len()
                &&& #[trigger] text.subrange(from, to) == inner
                &&& forall|i: int|
                    (0 <= i < from || to <= i < text.len()) ==> #[trigger] text[i] as int == 32
                        || text[i] as int == 9
            },
        inner.len() > 0 ==> inner[0] as int != 32 && inner[0] as int != 9,
        inner.len() > 0 ==> inner.last() as int != 32 && inner.last() as int != 9,
{
    let (from, to) = choose|from: int, to: int| #[trigger]
        text.subrange(from, to) == inner && {
            &&& 0 <= from <= to <= text.len()
            &&& forall|i: int| 0 <= i < from ==> is_blank(#[trigger] text[i])
            &&& forall|i: int| to <= i < text.len() ==> is_blank(#[trigger] text[i])
            &&& from < to ==> !is_blank(text[from]) && !is_blank(text[to - 1])
        };
    assert forall|i: int| (0 <= i < from || to <= i < text.len()) implies #[trigger] text[i] as int
        == 32 || text[i] as int == 9 by {
        assert(is_blank(text[i]));
    }
    if inner.len() > 0 {
        assert(inner[0] == text[from]);
        assert(inner.last() == text[to - 1]);
    }
}

/// A header has a text exactly where it is there and all its bytes are visible ASCII characters,
/// spaces or tabs; the text has one character for each byte.
pub proof fn the_text_of_a_header_is_its_bytes(
    values: Map<Seq<char>, Seq<u8>>,
    name: Seq<char>,
)
    ensures
        header_text(values, name) is Some <==> values.contains_key(name) && forall|i: int|
            0 <= i < values[name].len() ==> 32 <= #[trigger] values[name][i] <= 126
                || values[name][i] == 9,
        header_text(values, name) matches Some(text) ==> text.len() == values[name].len()
            && forall|i: int|
            0 <= i < text.len() ==> #[trigger] text[i] as int == values[name][i] as int,
{
    if values.contains_key(name) && forall|i: int|
        0 <= i < values[name].len() ==> 32 <= #[trigger] values[name][i] <= 126 || values[name][i]
            == 9 {
        assert(forall|i: int|
            0 <= i < values[name].len() ==> is_visible(#[trigger] values[name][i]));
    }
    if header_text(values, name) is Some {
        assert forall|i: int| 0 <= i < values[name].len() implies 32 <= #[trigger] values[name][i]
            <= 126 || values[name][i] == 9 by {
            assert(is_visible(values[name][i]));
        }
    }
}

/// Which characters are visible.
pub proof fn visible_characters_are_ascii(ch: char)
    ensures
        is_visible_char(ch) <==> 32 <= ch as int <= 126 || ch as int == 9,
{
}

} // verus!
