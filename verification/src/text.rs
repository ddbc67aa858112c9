//! Text helpers: comparison, ordering and splitting of names, and decoding of
//! bytes into text.
//!
//! A string is modelled by its characters. Names are ordered as `str` orders
//! them, by the bytes of their UTF-8 encoding.

use vstd::prelude::*;
use vstd::string::*;
use vstd::utf8::*;

verus! {

/// The error of a failed UTF-8 decoding, carried without looking inside.
#[verifier::external_type_specification]
#[verifier::external_body]
pub struct ExUtf8Error(core::str::Utf8Error);

/// `core::str::from_utf8`: succeeds exactly on valid UTF-8, and then the text
/// is the one those bytes encode.
pub assume_specification[ core::str::from_utf8 ](v: &[u8]) -> (decoded: Result<
    &str,
    core::str::Utf8Error,
>)
    ensures
        decoded is Ok <==> valid_utf8(v@),
        decoded matches Ok(text) ==> text.spec_bytes() == v@,
;

/// The text `String::from_utf8_lossy` makes of `bytes`.
pub uninterp spec fn lossy_text(bytes: Seq<u8>) -> Seq<char>;

/// `String::from_utf8_lossy`: a function of the bytes alone, and the plain
/// decoding where the bytes are valid UTF-8. Which characters stand in for an
/// invalid sequence is left to the name.
#[verifier::external_body]
pub(crate) fn from_utf8_lossy(bytes: &[u8]) -> (text: String)
    ensures
        text@ == lossy_text(bytes@),
        valid_utf8(bytes@) ==> text@ == decode_utf8(bytes@),
{
    String::from_utf8_lossy(bytes).into_owned()
}

/// The views of a list of strings.
pub open spec fn texts(names: Seq<String>) -> Seq<Seq<char>> {
    names.map_values(|name: String| name@)
}

/// The text the bytes encode, or `None` when they are not valid UTF-8.
pub open spec fn decoded_text(bytes: Seq<u8>) -> Option<Seq<char>> {
    if valid_utf8(bytes) {
        Some(decode_utf8(bytes))
    } else {
        None
    }
}

/// Decodes `bytes` as UTF-8 text.
pub fn decode_text(bytes: &[u8]) -> (text: Option<&str>)
    ensures
        text is Some <==> decoded_text(bytes@) is Some,
        text matches Some(found) ==> Some(found@) == decoded_text(bytes@) && found.spec_bytes()
            == bytes@,
{
    match core::str::from_utf8(bytes) {
        Ok(found) => {
            proof {
                encode_utf8_decode_utf8(found@);
            }
            Some(found)
        },
        Err(_) => None,
    }
}

/// Two texts are equal exactly when their encodings are.
pub proof fn lemma_encoding_injective(left: Seq<char>, right: Seq<char>)
    requires
        encode_utf8(left) == encode_utf8(right),
    ensures
        left == right,
{
    encode_utf8_decode_utf8(left);
    encode_utf8_decode_utf8(right);
}

/// Whether two strings hold the same characters.
pub fn same_text(left: &str, right: &str) -> (same: bool)
    ensures
        same == (left@ == right@),
{
    let a = left.as_bytes();
    let b = right.as_bytes();
    if a.len() != b.len() {
        return false;
    }
    let mut i: usize = 0;
    while i < a.len()
        invariant
            a@ == encode_utf8(left@),
            b@ == encode_utf8(right@),
            a@.len() == b@.len(),
            i <= a@.len(),
            forall|j: int| 0 <= j < i ==> a@[j] == b@[j],
        decreases a@.len() - i,
    {
        if a[i] != b[i] {
            return false;
        }
        i = i + 1;
    }
    proof {
        assert(a@ =~= b@);
        lemma_encoding_injective(left@, right@);
    }
    true
}

/// Whether `names` holds `name`.
pub fn list_contains(names: &Vec<String>, name: &str) -> (found: bool)
    ensures
        found == texts(names@).contains(name@),
{
    let mut i: usize = 0;
    while i < names.len()
        invariant
            i <= names@.len(),
            forall|j: int| 0 <= j < i ==> texts(names@)[j] != name@,
        decreases names@.len() - i,
    {
        if same_text(names[i].as_str(), name) {
            assert(texts(names@)[i as int] == name@);
            return true;
        }
        i = i + 1;
    }
    false
}

/// Strict lexicographic order on bytes.
pub open spec fn bytes_before(left: Seq<u8>, right: Seq<u8>) -> bool
    decreases left.len(),
{
    if right.len() == 0 {
        false
    } else if left.len() == 0 {
        true
    } else if left[0] != right[0] {
        left[0] < right[0]
    } else {
        bytes_before(left.drop_first(), right.drop_first())
    }
}

/// Strict order of texts: that of their UTF-8 bytes.
pub open spec fn text_before(left: Seq<char>, right: Seq<char>) -> bool {
    bytes_before(encode_utf8(left), encode_utf8(right))
}

/// Whether `left` comes before `right`.
pub fn comes_before(left: &str, right: &str) -> (before: bool)
    ensures
        before == text_before(left@, right@),
{
    let a = left.as_bytes();
    let b = right.as_bytes();
    let mut i: usize = 0;
    proof {
        assert(a@.skip(0) =~= a@);
        assert(b@.skip(0) =~= b@);
    }
    while i < a.len() && i < b.len()
        invariant
            i <= a@.len(),
            i <= b@.len(),
            a@ == encode_utf8(left@),
            b@ == encode_utf8(right@),
            text_before(left@, right@) == bytes_before(a@.skip(i as int), b@.skip(i as int)),
        decreases a@.len() - i,
    {
        if a[i] != b[i] {
            return a[i] < b[i];
        }
        proof {
            assert(a@.skip(i as int).drop_first() =~= a@.skip(i + 1));
            assert(b@.skip(i as int).drop_first() =~= b@.skip(i + 1));
        }
        i = i + 1;
    }
    i < b.len()
}

proof fn lemma_bytes_before_irreflexive(bytes: Seq<u8>)
    ensures
        !bytes_before(bytes, bytes),
    decreases bytes.len(),
{
    if bytes.len() > 0 {
        lemma_bytes_before_irreflexive(bytes.drop_first());
    }
}

proof fn lemma_bytes_before_transitive(a: Seq<u8>, b: Seq<u8>, c: Seq<u8>)
    requires
        bytes_before(a, b),
        bytes_before(b, c),
    ensures
        bytes_before(a, c),
    decreases a.len(),
{
    if a.len() > 0 && b.len() > 0 && c.len() > 0 && a[0] == b[0] && b[0] == c[0] {
        lemma_bytes_before_transitive(a.drop_first(), b.drop_first(), c.drop_first());
    }
}

proof fn lemma_bytes_before_total(a: Seq<u8>, b: Seq<u8>)
    ensures
        bytes_before(a, b) || bytes_before(b, a) || a == b,
    decreases a.len(),
{
    if a.len() > 0 && b.len() > 0 && a[0] == b[0] {
        lemma_bytes_before_total(a.drop_first(), b.drop_first());
        if a.drop_first() == b.drop_first() {
            assert(a =~= seq![a[0]] + a.drop_first());
            assert(b =~= seq![b[0]] + b.drop_first());
        }
    } else if a.len() == 0 && b.len() == 0 {
        assert(a =~= b);
    }
}

/// No text comes before itself.
pub proof fn lemma_text_before_irreflexive(text: Seq<char>)
    ensures
        !text_before(text, text),
{
    lemma_bytes_before_irreflexive(encode_utf8(text));
}

/// The order of texts is transitive.
pub proof fn lemma_text_before_transitive(a: Seq<char>, b: Seq<char>, c: Seq<char>)
    requires
        text_before(a, b),
        text_before(b, c),
    ensures
        text_before(a, c),
{
    lemma_bytes_before_transitive(encode_utf8(a), encode_utf8(b), encode_utf8(c));
}

/// Of two different texts one comes first.
pub proof fn lemma_text_before_total(a: Seq<char>, b: Seq<char>)
    ensures
        text_before(a, b) || text_before(b, a) || a == b,
{
    lemma_bytes_before_total(encode_utf8(a), encode_utf8(b));
    if encode_utf8(a) == encode_utf8(b) {
        lemma_encoding_injective(a, b);
    }
}

/// What is left of `text` behind `prefix`, if it starts with it.
pub open spec fn after_prefix(text: Seq<char>, prefix: Seq<char>) -> Option<Seq<char>> {
    if prefix.is_prefix_of(text) {
        Some(text.skip(prefix.len() as int))
    } else {
        None
    }
}

/// The parts of `text` around its first `separator`.
pub open spec fn split_first(text: Seq<char>, separator: char) -> Option<(Seq<char>, Seq<char>)> {
    match text.index_of_first(separator) {
        Some(at) => Some((text.take(at), text.skip(at + 1))),
        None => None,
    }
}

/// The characters of `text`.
fn characters(text: &str) -> (found: Vec<char>)
    ensures
        found@ == text@,
{
    let mut found: Vec<char> = Vec::new();
    for c in letters: text.chars()
        invariant
            letters.seq() == text@,
            found@ == text@.take(letters.index() as int),
    {
        found.push(c);
        assert(text@.take(letters.index() as int).push(c) =~= text@.take(letters.index() + 1));
    }
    assert(text@.take(text@.len() as int) =~= text@);
    found
}

/// Removes `prefix` from the front of `text`.
pub fn strip_prefix<'a>(text: &'a str, prefix: &str) -> (rest: Option<&'a str>)
    ensures
        rest is Some <==> after_prefix(text@, prefix@) is Some,
        rest matches Some(found) ==> Some(found@) == after_prefix(text@, prefix@),
{
    let whole = characters(text);
    let lead = characters(prefix);
    if lead.len() > whole.len() {
        return None;
    }
    let mut i: usize = 0;
    while i < lead.len()
        invariant
            whole@ == text@,
            lead@ == prefix@,
            i <= lead@.len() <= whole@.len(),
            forall|j: int| 0 <= j < i ==> lead@[j] == whole@[j],
        decreases lead@.len() - i,
    {
        if lead[i] != whole[i] {
            assert(prefix@[i as int] != text@.subrange(0, prefix@.len() as int)[i as int]);
            return None;
        }
        i = i + 1;
    }
    assert(prefix@ =~= text@.subrange(0, prefix@.len() as int));
    Some(text.substring_char(lead.len(), whole.len()))
}

/// Splits `text` at its first `separator`.
pub fn split_once<'a>(text: &'a str, separator: char) -> (parts: Option<(&'a str, &'a str)>)
    ensures
        parts is Some <==> split_first(text@, separator) is Some,
        parts matches Some(found) ==> Some((found.0@, found.1@)) == split_first(text@, separator),
{
    let whole = characters(text);
    proof {
        text@.index_of_first_ensures(separator);
    }
    let mut i: usize = 0;
    while i < whole.len()
        invariant
            whole@ == text@,
            i <= whole@.len(),
            forall|j: int| 0 <= j < i ==> text@[j] != separator,
        decreases whole@.len() - i,
    {
        if whole[i] == separator {
            proof {
                text@.index_of_first_ensures(separator);
                assert(text@.contains(separator));
            }
            return Some((text.substring_char(0, i), text.substring_char(i + 1, whole.len())));
        }
        i = i + 1;
    }
    None
}

/// Whether `text` holds the character `wanted`.
pub fn contains_char(text: &str, wanted: char) -> (found: bool)
    ensures
        found == text@.contains(wanted),
{
    proof {
        text@.index_of_first_ensures(wanted);
    }
    split_once(text, wanted).is_some()
}

/// The decimal digits of `value`, most significant first.
pub open spec fn decimal(value: nat) -> Seq<char>
    decreases value,
{
    if value < 10 {
        seq![(48 + value) as char]
    } else {
        decimal(value / 10).push((48 + value % 10) as char)
    }
}

/// The digit of a value below ten.
fn digit(value: usize) -> (text: &'static str)
    requires
        value < 10,
    ensures
        text@ == seq![(48 + value) as char],
{
    proof {
        reveal_strlit("0");
        reveal_strlit("1");
        reveal_strlit("2");
        reveal_strlit("3");
        reveal_strlit("4");
        reveal_strlit("5");
        reveal_strlit("6");
        reveal_strlit("7");
        reveal_strlit("8");
        reveal_strlit("9");
    }
    let text = if value == 0 {
        "0"
    } else if value == 1 {
        "1"
    } else if value == 2 {
        "2"
    } else if value == 3 {
        "3"
    } else if value == 4 {
        "4"
    } else if value == 5 {
        "5"
    } else if value == 6 {
        "6"
    } else if value == 7 {
        "7"
    } else if value == 8 {
        "8"
    } else {
        "9"
    };
    assert(text@ =~= seq![(48 + value) as char]);
    text
}

/// `value` written in decimal.
pub fn decimal_text(value: usize) -> (text: String)
    ensures
        text@ == decimal(value as nat),
    decreases value,
{
    if value < 10 {
        digit(value).to_owned()
    } else {
        let mut text = decimal_text(value / 10);
        text.append(digit(value % 10));
        assert(text@ =~= decimal(value as nat / 10).push((48 + value % 10) as char));
        text
    }
}

/// `first` followed by `second`.
pub fn joined(first: &str, second: &str) -> (text: String)
    ensures
        text@ == first@ + second@,
{
    let mut text = first.to_owned();
    text.append(second);
    text
}

/// The label of one row of a named vector.
pub open spec fn row_label(name: Seq<char>, row: nat) -> Seq<char> {
    name + " row "@ + decimal(row)
}

/// Labels row `row` of the vector `name`.
pub fn row_name(name: &str, row: usize) -> (text: String)
    ensures
        text@ == row_label(name@, row as nat),
{
    let mut text = joined(name, " row ");
    let number = decimal_text(row);
    text.append(number.as_str());
    text
}

/// A text is what is left behind a prefix exactly where the prefix and it make up
/// the whole.
pub proof fn law_prefix(text: Seq<char>, prefix: Seq<char>, rest: Seq<char>)
    ensures
        after_prefix(text, prefix) == Some(rest) <==> text == prefix + rest,
{
    let size = prefix.len() as int;
    if text == prefix + rest {
        assert(text.subrange(0, size) =~= prefix);
        assert(text.skip(size) =~= rest);
    }
    if after_prefix(text, prefix) == Some(rest) {
        assert(prefix =~= text.subrange(0, size));
        assert(text =~= text.subrange(0, size) + text.skip(size));
    }
}

/// Two texts are the parts around the first separator exactly where they make up
/// the whole with it between them and the first part has none.
pub proof fn law_split(text: Seq<char>, separator: char, first: Seq<char>, second: Seq<char>)
    ensures
        split_first(text, separator) == Some((first, second)) <==> text == first + seq![separator]
            + second && !first.contains(separator),
        split_first(text, separator) is None <==> !text.contains(separator),
{
    text.index_of_first_ensures(separator);
    if text == first + seq![separator] + second && !first.contains(separator) {
        let size = first.len() as int;
        assert(text[size] == separator);
        assert(text.contains(separator));
        let at = text.index_of_first(separator)->Some_0;
        if at < size {
            assert(first[at] == separator);
        }
        assert(at == size);
        assert(text.take(at) =~= first);
        assert(text.skip(at + 1) =~= second);
    }
    if split_first(text, separator) == Some((first, second)) {
        let at = text.index_of_first(separator)->Some_0;
        assert(text =~= text.take(at) + seq![separator] + text.skip(at + 1));
        assert(!first.contains(separator)) by {
            if first.contains(separator) {
                let i = choose|i: int| 0 <= i < first.len() && first[i] == separator;
                assert(text[i] == separator);
            }
        }
    }
}

/// The number that decimal digits stand for.
pub open spec fn number(digits: Seq<char>) -> int
    decreases digits.len(),
{
    if digits.len() == 0 {
        0
    } else {
        10 * number(digits.drop_last()) + (digits.last() as int - '0' as int)
    }
}

/// The decimal text of a number holds digits only, begins with a zero only where
/// it is the one zero, and stands for the number.
pub proof fn law_decimal(value: nat)
    ensures
        number(decimal(value)) == value,
        decimal(value).len() > 0,
        value > 0 ==> decimal(value)[0] != '0',
        value == 0 ==> decimal(value) == seq!['0'],
        forall|i: int| 0 <= i < decimal(value).len() ==> '0' <= #[trigger] decimal(value)[i] <= '9',
    decreases value,
{
    if value < 10 {
        assert(decimal(value).drop_last() =~= Seq::empty());
        assert(number(decimal(value).drop_last()) == 0);
    } else {
        law_decimal(value / 10);
        let digits = decimal(value);
        assert(digits.drop_last() =~= decimal(value / 10));
        assert forall|i: int| 0 <= i < digits.len() implies '0' <= #[trigger] digits[i] <= '9' by {
            if i < digits.len() - 1 {
                assert(digits[i] == decimal(value / 10)[i]);
            }
        }
        assert(digits[0] == decimal(value / 10)[0]);
        if value / 10 < 10 {
            assert(decimal(value / 10)[0] == (48 + value / 10) as char);
        }
    }
}

/// The bytes of two texts decide their order at the first place where they
/// differ, and the shorter one comes first where they do not.
pub proof fn law_byte_order(left: Seq<u8>, right: Seq<u8>, at: int)
    requires
        0 <= at <= left.len(),
        at <= right.len(),
        forall|i: int| 0 <= i < at ==> #[trigger] left[i] == right[i],
    ensures
        at < left.len() && at < right.len() && left[at] != right[at] ==> bytes_before(left, right)
            == (left[at] < right[at]),
        at == left.len() ==> bytes_before(left, right) == (left.len() < right.len()),
        at == right.len() ==> !bytes_before(left, right),
    decreases at,
{
    if at > 0 {
        let a = left.drop_first();
        let b = right.drop_first();
        assert(left[0] == right[0]);
        assert forall|i: int| 0 <= i < at - 1 implies #[trigger] a[i] == b[i] by {
            assert(left[i + 1] == right[i + 1]);
        }
        law_byte_order(a, b, at - 1);
    }
}

} // verus!
