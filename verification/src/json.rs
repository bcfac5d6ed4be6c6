//! JSON texts: values written and read through `serde_json`, and objects
//! put together from member texts.
use vstd::prelude::*;

use std::collections::BTreeMap;

use crate::string_map::StringMap;
use crate::order::comes_before;
use crate::text::{chars_of, join, same};

verus! {

/// What `serde_json` reads a text as where an object or `null` is asked for:
/// the text of each member's value by the member's name, or why it cannot be
/// read.
pub uninterp spec fn json_members(t: Seq<char>) -> Result<
    Option<Map<Seq<char>, Seq<char>>>,
    Seq<char>,
>;

/// What `serde_json` reads a text as where a string is asked for.
pub uninterp spec fn json_as_text(t: Seq<char>) -> Result<Seq<char>, Seq<char>>;

/// What `serde_json` reads a text as where a string or `null` is asked for.
pub uninterp spec fn json_as_opt_text(t: Seq<char>) -> Result<Option<Seq<char>>, Seq<char>>;

/// What `serde_json` reads a text as where a list or `null` is asked for, the
/// items of the list being strings or `null`.
pub uninterp spec fn json_as_opt_texts(t: Seq<char>) -> Result<
    Option<Seq<Option<Seq<char>>>>,
    Seq<char>,
>;

/// What `serde_json` reads a text as where a map from strings to strings is
/// asked for.
pub uninterp spec fn json_as_text_map(t: Seq<char>) -> Result<
    Map<Seq<char>, Seq<char>>,
    Seq<char>,
>;

/// Why `serde_json` cannot read a text as JSON at all, where it cannot.
pub uninterp spec fn json_error(t: Seq<char>) -> Option<Seq<char>>;

/// What `serde_json` reads a text as where a list is asked for: the text of
/// each item, or nothing where the text is no list.
pub uninterp spec fn json_as_list(t: Seq<char>) -> Option<Seq<Seq<char>>>;

/// What `serde_json` reads a text as where an unsigned number is asked for.
pub uninterp spec fn json_as_u64(t: Seq<char>) -> Option<u64>;

/// A character as it stands in a JSON string: quotes, backslashes and control
/// characters are escaped.
pub open spec fn quoted_char(c: char) -> Seq<char> {
    if c == '"' {
        "\\\""@
    } else if c == '\\' {
        "\\\\"@
    } else if c == '\u{8}' {
        "\\b"@
    } else if c == '\t' {
        "\\t"@
    } else if c == '\n' {
        "\\n"@
    } else if c == '\u{c}' {
        "\\f"@
    } else if c == '\r' {
        "\\r"@
    } else if c as int <= 31 {
        "\\u00"@ + crate::text::hex_byte(c as u8, false)
    } else {
        seq![c]
    }
}

/// The characters of a text as they stand in a JSON string.
pub open spec fn quoted_chars(s: Seq<char>) -> Seq<char>
    decreases s.len(),
{
    if s.len() == 0 {
        Seq::empty()
    } else {
        quoted_chars(s.drop_last()) + quoted_char(s.last())
    }
}

/// A text as a JSON string.
pub open spec fn json_quoted(s: Seq<char>) -> Seq<char> {
    "\""@ + quoted_chars(s) + "\""@
}

/// A character that may stand around a JSON value.
pub open spec fn is_blank(c: char) -> bool {
    c == ' ' || c == '\t' || c == '\n' || c == '\r'
}

/// The text is the word, with nothing but blanks around it.
pub open spec fn is_word(t: Seq<char>, word: Seq<char>) -> bool {
    exists|from: int| is_word_at(t, word, from)
}

/// The word stands at this position of the text, with nothing but blanks around
/// it.
pub open spec fn is_word_at(t: Seq<char>, word: Seq<char>, from: int) -> bool {
    &&& 0 <= from
    &&& from + word.len() <= t.len()
    &&& t.subrange(from, from + word.len()) == word
    &&& forall|i: int|
        0 <= i < t.len() && !(from <= i < from + word.len()) ==> is_blank(#[trigger] t[i])
}

/// What a text says where a truth value is asked for.
pub open spec fn json_as_bool(t: Seq<char>) -> Option<bool> {
    if is_word(t, "true"@) {
        Some(true)
    } else if is_word(t, "false"@) {
        Some(false)
    } else {
        None
    }
}

/// The quoted forms of strings.
pub open spec fn quoted_all(l: Seq<Seq<char>>) -> Seq<Seq<char>> {
    Seq::new(l.len(), |i: int| json_quoted(l[i]))
}

/// A list of values: their texts, with commas between them, in brackets.
pub open spec fn list_text(items: Seq<Seq<char>>) -> Seq<char> {
    "["@ + crate::text::joined(items, ","@) + "]"@
}

/// A list of strings.
pub open spec fn json_texts(l: Seq<Seq<char>>) -> Seq<char> {
    list_text(quoted_all(l))
}

/// Members whose values are strings.
pub open spec fn quoted_members(members: Seq<(Seq<char>, Seq<char>)>) -> Seq<
    (Seq<char>, Seq<char>),
> {
    Seq::new(members.len(), |i: int| (members[i].0, json_quoted(members[i].1)))
}

/// A map from strings to strings: an object with a member for each entry, in
/// the order of the keys.
pub open spec fn json_text_map(m: Map<Seq<char>, Seq<char>>) -> Seq<char> {
    object_text(quoted_members(crate::order::in_order(m)))
}

/// A member that is left out where it has no value.
pub open spec fn opt_member(name: Seq<char>, value: Option<Seq<char>>) -> Seq<
    (Seq<char>, Seq<char>),
> {
    match value {
        Some(v) => seq![(name, v)],
        None => Seq::empty(),
    }
}

/// An optional text as an optional JSON string.
pub open spec fn opt_quoted(s: Option<Seq<char>>) -> Option<Seq<char>> {
    match s {
        Some(s) => Some(json_quoted(s)),
        None => None,
    }
}

/// A character as it stands in a text that may be put into an HTML page: `&`, `<`,
/// `>` and the two line separators of Unicode by their numbers, any other as
/// it is.
pub open spec fn page_char(c: char) -> Seq<char> {
    if c == '&' {
        "\\u0026"@
    } else if c == '<' {
        "\\u003c"@
    } else if c == '>' {
        "\\u003e"@
    } else if c == '\u{2028}' {
        "\\u2028"@
    } else if c == '\u{2029}' {
        "\\u2029"@
    } else {
        seq![c]
    }
}

/// A JSON text as it may be put into an HTML page: the characters that a page gives
/// a meaning to, which stand in strings alone, are escaped.
pub open spec fn page_text(t: Seq<char>) -> Seq<char>
    decreases t.len(),
{
    if t.len() == 0 {
        Seq::empty()
    } else {
        page_text(t.drop_last()) + page_char(t.last())
    }
}

/// The character means something to a page.
pub open spec fn is_markup(c: char) -> bool {
    c == '&' || c == '<' || c == '>' || c == '\u{2028}' || c == '\u{2029}'
}

/// A text as it may be put into a page holds no character that means something
/// to a page, and one that holds none stays as it is.
pub proof fn page_text_is_plain(t: Seq<char>)
    ensures
        forall|i: int| 0 <= i < page_text(t).len() ==> !is_markup(#[trigger] page_text(t)[i]),
        (forall|i: int| 0 <= i < t.len() ==> !is_markup(#[trigger] t[i])) ==> page_text(t) == t,
    decreases t.len(),
{
    reveal_strlit("\\u0026");
    reveal_strlit("\\u003c");
    reveal_strlit("\\u003e");
    reveal_strlit("\\u2028");
    reveal_strlit("\\u2029");
    if t.len() > 0 {
        page_text_is_plain(t.drop_last());
        let rest = page_text(t.drop_last());
        let piece = page_char(t.last());
        assert forall|i: int| 0 <= i < page_text(t).len() implies !is_markup(
            #[trigger] page_text(t)[i],
        ) by {
            if i < rest.len() {
                assert(page_text(t)[i] == rest[i]);
            } else {
                assert(page_text(t)[i] == piece[i - rest.len()]);
            }
        }
        if forall|i: int| 0 <= i < t.len() ==> !is_markup(#[trigger] t[i]) {
            assert forall|i: int| 0 <= i < t.drop_last().len() implies !is_markup(
                #[trigger] t.drop_last()[i],
            ) by {
                assert(t.drop_last()[i] == t[i]);
            }
            assert(!is_markup(t[t.len() - 1]));
            assert(page_text(t) =~= t);
        }
    } else {
        assert(page_text(t) =~= t);
    }
}

/// The members of an object, their values as they may be put into a page.
pub open spec fn page_members(members: Seq<(Seq<char>, Seq<char>)>) -> Seq<
    (Seq<char>, Seq<char>),
> {
    Seq::new(members.len(), |i: int| (members[i].0, page_text(members[i].1)))
}

/// The texts of a list of pairs.
pub open spec fn pair_texts(pairs: Seq<(String, String)>) -> Seq<(Seq<char>, Seq<char>)> {
    Seq::new(pairs.len(), |i: int| (pairs[i].0@, pairs[i].1@))
}

/// The map that a list of pairs stands for; of two pairs with one key the
/// later counts.
pub open spec fn pairs_map(pairs: Seq<(String, String)>) -> Map<Seq<char>, Seq<char>> {
    members_map(pair_texts(pairs))
}

/// The texts of the values of a string map.
pub open spec fn map_texts(m: Map<Seq<char>, String>) -> Map<Seq<char>, Seq<char>> {
    m.map_values(|s: String| s@)
}

/// The texts in a map stand under the keys of the map, each under its own, and
/// those of pairs are the pairs' own, in their order.
pub proof fn texts_stay_under_their_keys(
    m: Map<Seq<char>, String>,
    pairs: Seq<(String, String)>,
    key: Seq<char>,
)
    ensures
        map_texts(m).contains_key(key) == m.contains_key(key),
        m.contains_key(key) ==> map_texts(m)[key] == m[key]@,
        pair_texts(pairs).len() == pairs.len(),
        forall|i: int|
            #![trigger pairs[i]]
            0 <= i < pairs.len() ==> pair_texts(pairs)[i] == (pairs[i].0@, pairs[i].1@),
{
}

/// The members of an object, each a name and the text of a value, without the
/// surrounding braces.
pub open spec fn members_text(members: Seq<(Seq<char>, Seq<char>)>) -> Seq<char>
    decreases members.len(),
{
    if members.len() == 0 {
        Seq::empty()
    } else {
        let rest = members_text(members.drop_last());
        let comma = if members.len() == 1 {
            Seq::empty()
        } else {
            ","@
        };
        rest + comma + json_quoted(members.last().0) + ":"@ + members.last().1
    }
}

/// The text of an object with the given members, in the given order.
pub open spec fn object_text(members: Seq<(Seq<char>, Seq<char>)>) -> Seq<char> {
    "{"@ + members_text(members) + "}"@
}

/// The members of an object by name.
pub open spec fn members_map(members: Seq<(Seq<char>, Seq<char>)>) -> Map<Seq<char>, Seq<char>>
    decreases members.len(),
{
    if members.len() == 0 {
        Map::empty()
    } else {
        members_map(members.drop_last()).insert(members.last().0, members.last().1)
    }
}

/// A text that `serde_json` writes for `null`, a string, a list of strings or
/// a map of strings.
pub open spec fn is_written(t: Seq<char>) -> bool {
    ||| t == "null"@
    ||| exists|s: Seq<char>| t == #[trigger] json_quoted(s)
    ||| exists|l: Seq<Seq<char>>| t == #[trigger] json_texts(l)
    ||| exists|m: Map<Seq<char>, Seq<char>>|
        m.dom().finite() && t == #[trigger] json_text_map(m)
}

/// Of two members with one name the later counts, and a name that no member
/// has is not there.
pub proof fn last_member_of_a_name_counts(members: Seq<(Seq<char>, Seq<char>)>, name: Seq<char>)
    ensures
        forall|k: int|
            #![trigger members[k]]
            0 <= k < members.len() && members[k].0 == name && (forall|j: int|
                k < j < members.len() ==> (#[trigger] members[j]).0 != name) ==> members_map(
                members,
            ).contains_key(name) && members_map(members)[name] == members[k].1,
        (forall|j: int| 0 <= j < members.len() ==> (#[trigger] members[j]).0 != name)
            ==> !members_map(members).contains_key(name),
    decreases members.len(),
{
    if members.len() > 0 {
        let head = members.drop_last();
        let n = members.len() - 1;
        last_member_of_a_name_counts(head, name);
        assert(members[n] == members.last());
        assert forall|k: int|
            #![trigger members[k]]
            0 <= k < members.len() && members[k].0 == name && (forall|j: int|
                k < j < members.len() ==> (#[trigger] members[j]).0
                    != name) implies members_map(members).contains_key(name) && members_map(
            members,
        )[name] == members[k].1 by {
            if k < n {
                assert(members[n].0 != name);
                assert forall|j: int| k < j < head.len() implies (#[trigger] head[j]).0
                    != name by {
                    assert(head[j] == members[j]);
                }
                assert(head[k] == members[k]);
            }
        }
        if forall|j: int| 0 <= j < members.len() ==> (#[trigger] members[j]).0 != name {
            assert forall|j: int| 0 <= j < head.len() implies (#[trigger] head[j]).0 != name by {
                assert(head[j] == members[j]);
            }
        }
    }
}

/// The members of an object are written one after the other, each as its quoted
/// name, a colon and its value, with a comma between neighbours; braces stand
/// around them.
pub proof fn members_are_written_in_a_row(
    a: Seq<(Seq<char>, Seq<char>)>,
    b: Seq<(Seq<char>, Seq<char>)>,
)
    ensures
        a.len() == 0 ==> object_text(a) == "{"@ + "}"@,
        a.len() == 1 ==> members_text(a) == json_quoted(a[0].0) + ":"@ + a[0].1,
        a.len() > 0 && b.len() > 0 ==> members_text(a + b) == members_text(a) + ","@
            + members_text(b),
        object_text(a) == "{"@ + members_text(a) + "}"@,
    decreases b.len(),
{
    if a.len() == 0 {
        assert(object_text(a) =~= "{"@ + "}"@);
    }
    if a.len() == 1 {
        assert(members_text(a.drop_last()).len() == 0);
        assert(members_text(a) =~= json_quoted(a[0].0) + ":"@ + a[0].1);
    }
    if a.len() > 0 && b.len() > 0 {
        let rest = b.drop_last();
        assert((a + b).drop_last() =~= a + rest);
        assert((a + b).last() == b.last());
        if b.len() == 1 {
            assert(a + rest =~= a);
            assert(members_text(rest).len() == 0);
        } else {
            members_are_written_in_a_row(a, rest);
        }
        assert(members_text(a + b) =~= members_text(a) + ","@ + members_text(b));
    }
}

/// A text is put into a page character by character: one that means something
/// to a page as a backslash, a `u` and the four hexadecimal digits of its
/// number, any other as it is.
pub proof fn characters_are_escaped_one_by_one(a: Seq<char>, c: char, b: Seq<char>)
    ensures
        page_text(a + b) == page_text(a) + page_text(b),
        c == '&' || c == '<' || c == '>' || c == '\u{2028}' || c == '\u{2029}' ==> page_text(seq![c])
            == seq!['\\', 'u'] + crate::text::hex_byte((c as int / 256) as u8, false)
            + crate::text::hex_byte((c as int % 256) as u8, false),
        c != '&' && c != '<' && c != '>' && c != '\u{2028}' && c != '\u{2029}' ==> page_text(seq![c])
            == seq![c],
    decreases b.len(),
{
    reveal_strlit("\\u0026");
    reveal_strlit("\\u003c");
    reveal_strlit("\\u003e");
    reveal_strlit("\\u2028");
    reveal_strlit("\\u2029");
    assert(page_text(seq![c].drop_last()) =~= Seq::<char>::empty());
    assert(page_text(seq![c]) =~= page_char(c));
    let (high, low) = (
        crate::text::hex_byte((c as int / 256) as u8, false),
        crate::text::hex_byte((c as int % 256) as u8, false),
    );
    if c == '&' || c == '<' || c == '>' || c == '\u{2028}' || c == '\u{2029}' {
        assert(page_text(seq![c]) =~= seq!['\\', 'u'] + high + low);
    }
    if b.len() == 0 {
        assert(a + b =~= a);
        assert(page_text(a) + page_text(b) =~= page_text(a));
    } else {
        characters_are_escaped_one_by_one(a, c, b.drop_last());
        assert((a + b).drop_last() =~= a + b.drop_last());
        assert((a + b).last() == b.last());
        assert(page_text(a + b) =~= page_text(a) + page_text(b));
    }
}

/// Strings are written in the order of the list, each in quotes, with commas
/// between them and brackets around them.
pub proof fn strings_are_written_in_a_row(a: Seq<Seq<char>>, b: Seq<Seq<char>>, s: Seq<char>)
    ensures
        json_texts(seq![s]) == "["@ + json_quoted(s) + "]"@,
        a.len() > 0 && b.len() > 0 ==> ({
            let inner = |l: Seq<Seq<char>>| json_texts(l).subrange(1, json_texts(l).len() - 1);
            inner(a + b) == inner(a) + ","@ + inner(b)
        }),
        json_texts(Seq::empty()) == "["@ + "]"@,
{
    reveal_strlit("[");
    reveal_strlit("]");
    assert(quoted_all(seq![s]) =~= seq![json_quoted(s)]);
    assert(json_texts(Seq::empty()) =~= "["@ + "]"@);
    assert(quoted_all(a + b) =~= quoted_all(a) + quoted_all(b));
    crate::text::joining_splits_anywhere(quoted_all(a), quoted_all(b), ","@);
    let inner = |l: Seq<Seq<char>>| json_texts(l).subrange(1, json_texts(l).len() - 1);
    assert(inner(a) =~= crate::text::joined(quoted_all(a), ","@));
    assert(inner(b) =~= crate::text::joined(quoted_all(b), ","@));
    assert(inner(a + b) =~= crate::text::joined(quoted_all(a + b), ","@));
}

/// `true` and `false` are read as what they say, with blanks around them or
/// without, and nothing else is read as a truth value.
pub proof fn only_truth_words_are_read(t: Seq<char>, before: Seq<char>, after: Seq<char>)
    requires
        forall|i: int|
            0 <= i < before.len() ==> #[trigger] before[i] == ' ' || before[i] == '\t' || before[i]
                == '\n' || before[i] == '\r',
        forall|i: int|
            0 <= i < after.len() ==> #[trigger] after[i] == ' ' || after[i] == '\t' || after[i]
                == '\n' || after[i] == '\r',
    ensures
        json_as_bool(before + "true"@ + after) == Some(true),
        json_as_bool(before + "false"@ + after) == Some(false),
        json_as_bool(t) == Some(true) ==> exists|i: int|
            0 <= i && i + 4 <= t.len() && #[trigger] t.subrange(i, i + 4) == "true"@,
        json_as_bool(t) == Some(false) ==> exists|i: int|
            0 <= i && i + 5 <= t.len() && #[trigger] t.subrange(i, i + 5) == "false"@,
{
    reveal_strlit("true");
    reveal_strlit("false");
    let n = before.len() as int;
    let yes = before + "true"@ + after;
    let no = before + "false"@ + after;
    assert(is_word_at(yes, "true"@, n)) by {
        assert(yes.subrange(n, n + 4) =~= "true"@);
        assert forall|i: int| 0 <= i < yes.len() && !(n <= i < n + 4) implies is_blank(
            #[trigger] yes[i],
        ) by {
            if i < n {
                assert(yes[i] == before[i]);
            } else {
                assert(yes[i] == after[i - n - 4]);
            }
        }
    }
    assert(is_word_at(no, "false"@, n)) by {
        assert(no.subrange(n, n + 5) =~= "false"@);
        assert forall|i: int| 0 <= i < no.len() && !(n <= i < n + 5) implies is_blank(
            #[trigger] no[i],
        ) by {
            if i < n {
                assert(no[i] == before[i]);
            } else {
                assert(no[i] == after[i - n - 5]);
            }
        }
    }
    if is_word(no, "true"@) {
        let at = choose|from: int| is_word_at(no, "true"@, from);
        assert(no[n] == 'f');
        assert(no[n + 1] == 'a');
        assert(no.subrange(at, at + 4)[0] == no[at]);
        assert(!is_blank(no[n]));
        assert(at <= n < at + 4);
        assert(no[n] == no.subrange(at, at + 4)[n - at]);
    }
    if is_word(t, "true"@) {
        let at = choose|from: int| is_word_at(t, "true"@, from);
        assert(t.subrange(at, at + 4) == "true"@);
    }
    if is_word(t, "false"@) {
        let at = choose|from: int| is_word_at(t, "false"@, from);
        assert(t.subrange(at, at + 5) == "false"@);
    }
}

/// What reading an object or `null` gave, in texts.
pub open spec fn members_outcome(r: Result<Option<Vec<(String, String)>>, String>) -> Result<
    Option<Map<Seq<char>, Seq<char>>>,
    Seq<char>,
> {
    match r {
        Ok(Some(pairs)) => Ok(Some(pairs_map(pairs@))),
        Ok(None) => Ok(None),
        Err(e) => Err(e@),
    }
}

/// What reading a map of strings gave, in texts.
pub open spec fn map_outcome(r: Result<Vec<(String, String)>, String>) -> Result<
    Map<Seq<char>, Seq<char>>,
    Seq<char>,
> {
    match r {
        Ok(pairs) => Ok(pairs_map(pairs@)),
        Err(e) => Err(e@),
    }
}

/// What reading a string gave, in texts.
pub open spec fn text_outcome(r: Result<String, String>) -> Result<Seq<char>, Seq<char>> {
    match r {
        Ok(s) => Ok(s@),
        Err(e) => Err(e@),
    }
}

/// What reading a string or `null` gave, in texts.
pub open spec fn opt_text_outcome(r: Result<Option<String>, String>) -> Result<
    Option<Seq<char>>,
    Seq<char>,
> {
    match r {
        Ok(s) => Ok(crate::text::opt_text(s)),
        Err(e) => Err(e@),
    }
}

/// The texts of a list of optional strings.
pub open spec fn opt_texts(l: Seq<Option<String>>) -> Seq<Option<Seq<char>>> {
    Seq::new(l.len(), |i: int| crate::text::opt_text(l[i]))
}

/// What reading a list or `null` gave, in texts.
pub open spec fn opt_texts_outcome(r: Result<Option<Vec<Option<String>>>, String>) -> Result<
    Option<Seq<Option<Seq<char>>>>,
    Seq<char>,
> {
    match r {
        Ok(Some(l)) => Ok(Some(opt_texts(l@))),
        Ok(None) => Ok(None),
        Err(e) => Err(e@),
    }
}

/// What reading a list gave, in texts.
pub open spec fn list_outcome(r: Option<Vec<String>>) -> Option<Seq<Seq<char>>> {
    match r {
        Some(l) => Some(crate::text::texts(l@)),
        None => None,
    }
}

/// Reading gave the object with these members.
pub open spec fn gives_members(
    r: Result<Option<Vec<(String, String)>>, String>,
    members: Seq<(Seq<char>, Seq<char>)>,
) -> bool {
    r matches Ok(Some(pairs)) && pairs_map(pairs@) == members_map(members)
}

/// Reading gave this map of strings.
pub open spec fn gives_map(
    r: Result<Vec<(String, String)>, String>,
    m: Map<Seq<char>, Seq<char>>,
) -> bool {
    r matches Ok(pairs) && pairs_map(pairs@) == m
}

/// Reading gave this string.
pub open spec fn gives_text(r: Result<Option<String>, String>, s: Seq<char>) -> bool {
    r matches Ok(Some(got)) && got@ == s
}

/// Reading gave this list of strings, without `null` among them.
pub open spec fn gives_texts(
    r: Result<Option<Vec<Option<String>>>, String>,
    l: Seq<Seq<char>>,
) -> bool {
    r matches Ok(Some(got)) && opt_texts(got@) == Seq::new(l.len(), |i: int| Some(l[i]))
}

/// `serde_json::to_string` on a string: the string in quotes, with quotes,
/// backslashes and control characters escaped. Writing a string does not fail.
#[verifier::external_body]
pub(crate) fn write_text(s: &str) -> (r: String)
    ensures
        r@ == json_quoted(s@),
{
    serde_json::to_string(s).expect("a string can be written")
}

/// `serde_json::to_string` on a list of strings: the strings as they are
/// written alone, with commas between them, in brackets. Writing one does not
/// fail.
#[verifier::external_body]
pub(crate) fn write_texts(l: &Vec<String>) -> (r: String)
    ensures
        r@ == json_texts(crate::text::texts(l@)),
{
    serde_json::to_string(l).expect("a list of strings can be written")
}

/// `serde_json::to_string` on a map of strings, given as pairs with different
/// keys: an object with a member for each pair, in the order of the keys.
/// Writing one does not fail.
#[verifier::external_body]
pub(crate) fn write_text_map(pairs: Vec<(String, String)>) -> (r: String)
    requires
        crate::order::distinct(pair_texts(pairs@)),
    ensures
        r@ == json_text_map(pairs_map(pairs@)),
{
    let map: BTreeMap<String, String> = pairs.into_iter().collect();
    serde_json::to_string(&map).expect("a map of strings can be written")
}

/// `serde_json::from_str` into an optional map from member names to raw
/// values, each value handed on as the text that stands there. `null` is
/// nothing. An object whose members were written by `serde_json` under distinct
/// names, escaped for a page, is read back as those members with their values
/// escaped for a page.
#[verifier::external_body]
pub(crate) fn read_members(t: &str) -> (r: Result<Option<Vec<(String, String)>>, String>)
    ensures
        members_outcome(r) == json_members(t@),
        t@ == "null"@ ==> r matches Ok(None),
        forall|members: Seq<(Seq<char>, Seq<char>)>|
            t@ == page_text(#[trigger] object_text(members)) && (forall|i: int, j: int|
                0 <= i < j < members.len() ==> members[i].0 != members[j].0) && (forall|i: int|
                0 <= i < members.len() ==> is_written(#[trigger] members[i].1))
                    ==> gives_members(r, page_members(members)),
{
    serde_json::from_str::<Option<BTreeMap<String, Box<serde_json::value::RawValue>>>>(t)
        .map(|m| m.map(|m| m.into_iter().map(|(k, v)| (k, v.get().to_owned())).collect()))
        .map_err(|e| e.to_string())
}

/// `serde_json::from_str` into a string.
#[verifier::external_body]
pub(crate) fn read_text(t: &str) -> (r: Result<String, String>)
    ensures
        text_outcome(r) == json_as_text(t@),
{
    serde_json::from_str::<String>(t).map_err(|e| e.to_string())
}

/// `serde_json::from_str` into an optional string. `null` is nothing. What
/// `serde_json` wrote for a string, escaped for a page, is read back as that
/// string.
#[verifier::external_body]
pub(crate) fn read_opt_text(t: &str) -> (r: Result<Option<String>, String>)
    ensures
        opt_text_outcome(r) == json_as_opt_text(t@),
        t@ == "null"@ ==> r matches Ok(None),
        forall|s: Seq<char>| t@ == page_text(#[trigger] json_quoted(s)) ==> gives_text(r, s),
{
    serde_json::from_str::<Option<String>>(t).map_err(|e| e.to_string())
}

/// `serde_json::from_str` into an optional list of optional strings. `null` is
/// nothing. What `serde_json` wrote for a list of strings, escaped for a page,
/// is read back as that list.
#[verifier::external_body]
pub(crate) fn read_opt_texts(t: &str) -> (r: Result<Option<Vec<Option<String>>>, String>)
    ensures
        opt_texts_outcome(r) == json_as_opt_texts(t@),
        t@ == "null"@ ==> r matches Ok(None),
        forall|l: Seq<Seq<char>>|
            t@ == page_text(#[trigger] json_texts(l)) ==> gives_texts(r, l),
{
    serde_json::from_str::<Option<Vec<Option<String>>>>(t).map_err(|e| e.to_string())
}

/// `serde_json::from_str` into a map from strings to strings. What
/// `serde_json` wrote for such a map is read back as that map.
#[verifier::external_body]
pub(crate) fn read_text_map(t: &str) -> (r: Result<Vec<(String, String)>, String>)
    ensures
        map_outcome(r) == json_as_text_map(t@),
        forall|m: Map<Seq<char>, Seq<char>>|
            m.dom().finite() && t@ == #[trigger] json_text_map(m) ==> gives_map(r, m),
{
    serde_json::from_str::<BTreeMap<String, String>>(t)
        .map(|m| m.into_iter().collect())
        .map_err(|e| e.to_string())
}

/// `serde_json::from_str` into any JSON value: the error, where there is one.
#[verifier::external_body]
pub(crate) fn read_error(t: &str) -> (r: Option<String>)
    ensures
        crate::text::opt_text(r) == json_error(t@),
{
    serde_json::from_str::<serde_json::Value>(t).err().map(|e| e.to_string())
}

/// `serde_json::from_str` into a list of values, each handed on as the text
/// that `serde_json` writes for it.
#[verifier::external_body]
pub(crate) fn read_list(t: &str) -> (r: Option<Vec<String>>)
    ensures
        list_outcome(r) == json_as_list(t@),
{
    serde_json::from_str::<Vec<serde_json::Value>>(t)
        .ok()
        .map(|l| l.into_iter().map(|v| v.to_string()).collect())
}

/// `serde_json::from_str` into an unsigned 64-bit number.
#[verifier::external_body]
pub(crate) fn read_u64(t: &str) -> (r: Option<u64>)
    ensures
        r == json_as_u64(t@),
{
    serde_json::from_str::<u64>(t).ok()
}

/// `serde_json::from_str` into a truth value: one of the two words, with
/// nothing but blanks around it.
#[verifier::external_body]
pub(crate) fn read_bool(t: &str) -> (r: Option<bool>)
    ensures
        r == json_as_bool(t@),
{
    serde_json::from_str::<bool>(t).ok()
}

/// The entries of a string map as pairs.
pub fn pairs_of(map: &StringMap<String>) -> (r: Vec<(String, String)>)
    ensures
        pairs_map(r@) == map_texts(map@),
        crate::order::distinct(pair_texts(r@)),
{
    let n: usize = map.len();
    let mut r: Vec<(String, String)> = Vec::new();
    let mut i: usize = 0;
    while i < n
        invariant
            n == map.keys().len(),
            i <= n,
            r@.len() == i,
            map.keys().no_duplicates(),
            forall|j: int| 0 <= j < i ==> (#[trigger] r@[j]).0@ == map.keys()[j],
            pairs_map(r@).dom() == map.keys().take(i as int).to_set(),
            forall|k: Seq<char>| #[trigger]
                pairs_map(r@).contains_key(k) ==> map@.contains_key(k) && pairs_map(r@)[k]
                    == map@[k]@,
        decreases n - i,
    {
        let ghost before = r@;
        r.push((map.key_at(i).clone(), map.value_at(i).clone()));
        i += 1;
        proof {
            let ghost now = map.keys().take(i as int);
            assert(pair_texts(r@).drop_last() =~= pair_texts(before));
            assert(now =~= map.keys().take(i - 1).push(map.keys()[i - 1]));
            map.keys().take(i - 1).lemma_push_to_set_commute(map.keys()[i - 1]);
        }
    }
    proof {
        assert(map.keys().take(n as int) =~= map.keys());
        assert(pairs_map(r@) =~= map_texts(map@));
    }
    r
}

/// Copies a string map.
pub fn copy_map(map: &StringMap<String>) -> (r: StringMap<String>)
    ensures
        map_texts(r@) == map_texts(map@),
        r.keys() == map.keys(),
{
    let r = map.clone();
    assert(map_texts(r@) =~= map_texts(map@));
    r
}

/// The value that the last pair with the key `key` holds.
pub fn pair_value<'a>(pairs: &'a Vec<(String, String)>, key: &str) -> (r: Option<&'a String>)
    ensures
        match r {
            Some(v) => pairs_map(pairs@).contains_key(key@) && pairs_map(pairs@)[key@] == v@,
            None => !pairs_map(pairs@).contains_key(key@),
        },
{
    let mut i: usize = pairs.len();
    assert(pairs@.take(i as int) =~= pairs@);
    while i > 0
        invariant
            i <= pairs@.len(),
            pairs_map(pairs@).contains_key(key@) == pairs_map(pairs@.take(i as int)).contains_key(
                key@,
            ),
            pairs_map(pairs@).contains_key(key@) ==> pairs_map(pairs@)[key@] == pairs_map(
                pairs@.take(i as int),
            )[key@],
        decreases i,
    {
        i -= 1;
        proof {
            let now = pair_texts(pairs@.take(i + 1));
            assert(now.drop_last() =~= pair_texts(pairs@.take(i as int)));
            assert(now.last() == (pairs@[i as int].0@, pairs@[i as int].1@));
        }
        if same(pairs[i].0.as_str(), key) {
            return Some(&pairs[i].1);
        }
    }
    None
}

/// Writes a JSON text as it may be put into a page.
pub fn to_page_text(t: &str) -> (r: String)
    ensures
        r@ == page_text(t@),
{
    let chars = chars_of(t);
    let mut r: String = String::new();
    let mut i: usize = 0;
    assert(t@.take(0) =~= Seq::empty());
    while i < chars.len()
        invariant
            i <= chars@.len(),
            chars@ == t@,
            r@ == page_text(t@.take(i as int)),
        decreases chars@.len() - i,
    {
        let c: char = chars[i];
        let ghost before = r@;
        if c == '&' {
            r.append("\\u0026");
        } else if c == '<' {
            r.append("\\u003c");
        } else if c == '>' {
            r.append("\\u003e");
        } else if c == '\u{2028}' {
            r.append("\\u2028");
        } else if c == '\u{2029}' {
            r.append("\\u2029");
        } else {
            r.push(c);
            assert(r@ =~= before + seq![c]);
        }
        assert(r@ == before + page_char(c));
        i += 1;
        assert(t@.take(i as int).drop_last() =~= t@.take(i - 1));
    }
    assert(t@.take(i as int) =~= t@);
    r
}

proof fn lemma_map_keys(members: Seq<(Seq<char>, Seq<char>)>, k: Seq<char>)
    requires
        members_map(members).contains_key(k),
    ensures
        crate::order::holds_key(members, k),
    decreases members.len(),
{
    let n = members.len() - 1;
    if members.len() > 0 {
        if members[n].0 != k {
            lemma_map_keys(members.drop_last(), k);
            let i = choose|i: int|
                0 <= i < members.drop_last().len() && (#[trigger] members.drop_last()[i]).0 == k;
            assert(members[i].0 == k);
        } else {
            assert(members[n].0 == k);
        }
    }
}

/// Puts pairs into the order of their keys.
pub fn ordered(pairs: Vec<(String, String)>) -> (r: Vec<(String, String)>)
    requires
        crate::order::distinct(pair_texts(pairs@)),
    ensures
        pair_texts(r@) == crate::order::in_order(pairs_map(pairs@)),
        r@.len() == pairs@.len(),
{
    let mut r: Vec<(String, String)> = Vec::new();
    let ghost all = pair_texts(pairs@);
    let mut i: usize = 0;
    assert(all.take(0) =~= Seq::empty());
    assert(pair_texts(r@) =~= Seq::empty());
    while i < pairs.len()
        invariant
            i <= pairs@.len(),
            all == pair_texts(pairs@),
            crate::order::distinct(all),
            r@.len() == i,
            crate::order::lists_in_order(pair_texts(r@), members_map(all.take(i as int))),
        decreases pairs@.len() - i,
    {
        let ghost before = pair_texts(r@);
        let ghost m = members_map(all.take(i as int));
        let ghost k = all[i as int].0;
        let key = pairs[i].0.as_str();
        let mut at: usize = 0;
        while at < r.len() && !comes_before(key, r[at].0.as_str())
            invariant
                at <= r@.len(),
                key@ == k,
                before == pair_texts(r@),
                forall|j: int|
                    0 <= j < at ==> !crate::order::precedes(k, (#[trigger] before[j]).0),
            decreases r@.len() - at,
        {
            assert(before[at as int].0 == r@[at as int].0@);
            at += 1;
        }
        proof {
            if m.contains_key(k) {
                lemma_map_keys(all.take(i as int), k);
                let j = choose|j: int|
                    0 <= j < all.take(i as int).len() && (#[trigger] all.take(i as int)[j]).0 == k;
                assert(all[j].0 != all[i as int].0);
            }
            if at < r@.len() {
                assert(before[at as int].0 == r@[at as int].0@);
            }
            crate::order::insertion_keeps_order(before, m, k, all[i as int].1, at as int);
        }
        r.insert(at, (pairs[i].0.clone(), pairs[i].1.clone()));
        i += 1;
        proof {
            assert(all.take(i as int).drop_last() =~= all.take(i - 1));
            assert(pair_texts(r@) =~= before.insert(at as int, all[i - 1]));
        }
    }
    proof {
        assert(all.take(i as int) =~= all);
        crate::order::order_is_unique(pair_texts(r@), members_map(all));
    }
    r
}

/// Adds a member, its value given as JSON.
pub fn push_member(members: &mut Vec<(String, String)>, name: &str, value: String)
    ensures
        pair_texts(final(members)@) == pair_texts(old(members)@).push((name@, value@)),
{
    let ghost before = pair_texts(members@);
    members.push((name.to_owned(), value));
    assert(pair_texts(members@) =~= before.push((name@, value@)));
}

/// Adds a member whose value is a string.
pub fn push_text(members: &mut Vec<(String, String)>, name: &str, value: &str)
    ensures
        pair_texts(final(members)@) == pair_texts(old(members)@).push(
            (name@, json_quoted(value@)),
        ),
{
    push_member(members, name, write_text(value));
}

/// Adds a member whose value is a string, where there is one.
pub fn push_opt_text(members: &mut Vec<(String, String)>, name: &str, value: &Option<String>)
    ensures
        pair_texts(final(members)@) == pair_texts(old(members)@) + opt_member(
            name@,
            opt_quoted(crate::text::opt_text(*value)),
        ),
{
    let ghost before = pair_texts(members@);
    match value {
        Some(v) => push_text(members, name, v.as_str()),
        None => {},
    }
    assert(pair_texts(members@) =~= before + opt_member(
        name@,
        opt_quoted(crate::text::opt_text(*value)),
    ));
}

/// Adds a member, its value given as JSON, where there is one.
pub fn push_opt_member(members: &mut Vec<(String, String)>, name: &str, value: Option<String>)
    ensures
        pair_texts(final(members)@) == pair_texts(old(members)@) + opt_member(
            name@,
            crate::text::opt_text(value),
        ),
{
    let ghost before = pair_texts(members@);
    let ghost given = crate::text::opt_text(value);
    match value {
        Some(v) => push_member(members, name, v),
        None => {},
    }
    assert(pair_texts(members@) =~= before + opt_member(name@, given));
}

/// Writes a list of values, given as JSON.
pub fn write_list(items: &Vec<String>) -> (r: String)
    ensures
        r@ == list_text(crate::text::texts(items@)),
{
    let mut r: String = "[".to_owned();
    r.append(join(items, ",").as_str());
    r.append("]");
    r
}

/// Writes the object with the given members, in the given order.
pub fn write_object(members: &Vec<(String, String)>) -> (r: String)
    ensures
        r@ == object_text(pair_texts(members@)),
{
    let mut r: String = "{".to_owned();
    let ghost all = pair_texts(members@);
    let mut i: usize = 0;
    assert(all.take(0) =~= Seq::empty());
    assert(r@ =~= "{"@ + members_text(all.take(0)));
    while i < members.len()
        invariant
            i <= members@.len(),
            all == pair_texts(members@),
            r@ == "{"@ + members_text(all.take(i as int)),
        decreases members@.len() - i,
    {
        let ghost before = r@;
        if i > 0 {
            r.append(",");
        }
        r.append(write_text(members[i].0.as_str()).as_str());
        r.append(":");
        r.append(members[i].1.as_str());
        i += 1;
        proof {
            let now = all.take(i as int);
            assert(now.drop_last() =~= all.take(i - 1));
            assert(now.last() == all[i - 1]);
            assert(r@ =~= "{"@ + members_text(now));
        }
    }
    assert(all.take(i as int) =~= all);
    r.append("}");
    r
}

} // verus!
