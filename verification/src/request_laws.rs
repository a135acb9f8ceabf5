//! Laws of what is read of a request and of what becomes of it, stated of its header
//! fields, of the document that its body parses to, and of what the functions return.

use vstd::prelude::*;

use crate::auth::{hex_value, hmac_sha256, read_signature, unhex, Signature};
use crate::headers::{first_value, header_text, read_value, visible, Headers};
use crate::json::{parsed, Json};
use crate::payload::{nested, parse_payload, payload_of, texts, views, Payload, PayloadView};
use crate::text::{lower, trim_end, trim_start, until};
use crate::text_laws::{
    cut_out, lemma_cut_out, lemma_lower_char_by_char, lemma_trimmed_end, lemma_trimmed_start,
    lemma_until_splits,
};
use crate::webhook::{
    authentic, content_type_is_json, control_char, declares_json, has_labels,
    is_valid_delivery, is_valid_event, labels_present, media_type, printable, sanitize_for_log,
};
use crate::webhook_laws::{hex_text, lemma_unhex_lower};

verus! {

/// The entry at `k` is the first under a name.
pub open spec fn first_at(entries: Seq<(String, Vec<u8>)>, name: Seq<char>, k: int) -> bool {
    &&& 0 <= k < entries.len()
    &&& entries[k].0@ == name
    &&& forall|j: int| 0 <= j < k ==> (#[trigger] entries[j]).0@ != name
}

/// A value reads as a text: each byte is a tab or stands between the space and the
/// tilde, and is the code of the text's character.
pub open spec fn reads_as(value: Seq<u8>, text: Seq<char>) -> bool {
    &&& value.len() == text.len()
    &&& forall|i: int|
        0 <= i < value.len() ==> {
            &&& #[trigger] value[i] == 9 || 32 <= value[i] <= 126
            &&& text[i] as int == value[i] as int
        }
}

/// A request carries a field of this name with this text: its first value under the
/// name reads as the text.
pub open spec fn carries(headers: Headers, name: Seq<char>, text: Seq<char>) -> bool {
    exists|k: int| #[trigger]
        first_at(headers.entries@, name, k) && reads_as(headers.entries@[k].1@, text)
}

/// Where the first value under a name stands.
proof fn lemma_first_value(entries: Seq<(String, Vec<u8>)>, name: Seq<char>) -> (k: int)
    ensures
        match first_value(entries, name) {
            Some(value) => first_at(entries, name, k) && entries[k].1@ == value,
            None => forall|j: int| 0 <= j < entries.len() ==> (#[trigger] entries[j]).0@ != name,
        },
    decreases entries.len(),
{
    if entries.len() == 0 {
        0
    } else if entries[0].0@ == name {
        0
    } else {
        let rest = entries.skip(1);
        let k = lemma_first_value(rest, name);
        assert forall|j: int| 1 <= j < entries.len() implies #[trigger] entries[j] == rest[j
            - 1] by {}
        match first_value(rest, name) {
            Some(_) => {
                assert forall|j: int| 0 <= j < k + 1 implies (#[trigger] entries[j]).0@ != name by {
                    if j > 0 {
                        assert(entries[j] == rest[j - 1]);
                    }
                }
            },
            None => {
                assert forall|j: int| 0 <= j < entries.len() implies (#[trigger] entries[j]).0@
                    != name by {
                    if j > 0 {
                        assert(entries[j] == rest[j - 1]);
                    }
                }
            },
        }
        k + 1
    }
}

/// A value is read as the one text that it reads as.
proof fn lemma_header_text(value: Seq<u8>, text: Seq<char>)
    ensures
        header_text(value) == Some(text) <==> reads_as(value, text),
{
    if reads_as(value, text) {
        assert forall|i: int| 0 <= i < value.len() implies visible(#[trigger] value[i]) by {}
        assert(header_text(value)->0 =~= text) by {
            assert forall|i: int| 0 <= i < text.len() implies #[trigger] (header_text(value)->0)[i]
                == text[i] by {
                assert(value[i] == 9 || 32 <= value[i] <= 126);
            }
        }
    }
    if header_text(value) == Some(text) {
        assert forall|i: int| 0 <= i < value.len() implies {
            &&& #[trigger] value[i] == 9 || 32 <= value[i] <= 126
            &&& text[i] as int == value[i] as int
        } by {
            assert(visible(value[i]));
        }
    }
}

/// The text of a field is the one that the request carries.
pub(crate) proof fn lemma_field(headers: Headers, name: Seq<char>, text: Seq<char>)
    ensures
        headers.field(name) == Some(text) <==> carries(headers, name, text),
{
    let entries = headers.entries@;
    let k = lemma_first_value(entries, name);
    if headers.field(name) == Some(text) {
        lemma_header_text(entries[k].1@, text);
        assert(first_at(entries, name, k));
    }
    if carries(headers, name, text) {
        let j = choose|j: int| #[trigger]
            first_at(entries, name, j) && reads_as(entries[j].1@, text);
        assert(entries[j].0@ == name);
        assert(j == k) by {
            if j < k {
                assert(entries[j].0@ != name);
            } else if k < j {
                assert(entries[k].0@ != name);
            }
        }
        lemma_header_text(entries[k].1@, text);
    }
}

/// [`Headers::get`] gives exactly the text that the request carries under the name.
pub proof fn law_field_is_the_first_value(headers: &Headers, name: &str, r: Option<String>)
    requires
        call_ensures(Headers::get, (headers, name), r),
    ensures
        match r {
            Some(text) => carries(*headers, name@, text@),
            None => forall|text: Seq<char>| !(#[trigger] carries(*headers, name@, text)),
        },
{
    match r {
        Some(text) => lemma_field(*headers, name@, text@),
        None => {
            assert forall|text: Seq<char>| !(#[trigger] carries(*headers, name@, text)) by {
                lemma_field(*headers, name@, text);
            }
        },
    }
}

/// [`read_value`] gives exactly the text that the value reads as.
pub proof fn law_value_is_read_byte_by_byte(value: &Vec<u8>, r: Option<String>)
    requires
        call_ensures(read_value, (value,), r),
    ensures
        match r {
            Some(text) => reads_as(value@, text@),
            None => forall|text: Seq<char>| !(#[trigger] reads_as(value@, text)),
        },
{
    match r {
        Some(text) => lemma_header_text(value@, text@),
        None => {
            assert forall|text: Seq<char>| !(#[trigger] reads_as(value@, text)) by {
                lemma_header_text(value@, text);
            }
        },
    }
}

/// Hexadecimal digits, each of either case, spell bytes.
pub open spec fn spells(digits: Seq<char>, bytes: Seq<u8>) -> bool {
    &&& digits.len() == 2 * bytes.len()
    &&& forall|i: int|
        0 <= i < digits.len() ==> {
            let low = hex_text(bytes)[i] as int;
            #[trigger] digits[i] as int == low || (97 <= low <= 102 && digits[i] as int == low - 32)
        }
}

/// Digits spell the bytes that they are decoded to, and no others.
proof fn lemma_spells(digits: Seq<char>, bytes: Seq<u8>)
    ensures
        unhex(digits) == Some(bytes) <==> spells(digits, bytes),
{
    if unhex(digits) == Some(bytes) {
        lemma_unhex_lower(digits);
        assert forall|i: int| 0 <= i < digits.len() implies {
            let low = hex_text(bytes)[i] as int;
            #[trigger] digits[i] as int == low || (97 <= low <= 102 && digits[i] as int == low - 32)
        } by {
            lemma_lower_char_by_char(digits, i);
            assert(hex_value(digits[i]) is Some);
        }
    }
    if spells(digits, bytes) {
        assert forall|i: int| 0 <= i < digits.len() implies hex_value(#[trigger] digits[i]) == Some(
            if i % 2 == 0 {
                (bytes[i / 2] / 16) as u8
            } else {
                (bytes[i / 2] % 16) as u8
            },
        ) by {
            let low = hex_text(bytes)[i] as int;
            assert(digits[i] as int == low || (97 <= low <= 102 && digits[i] as int == low - 32));
        }
        assert forall|i: int| 0 <= i < digits.len() implies (#[trigger] hex_value(
            digits[i],
        )) is Some by {
            assert(hex_value(digits[i]) == hex_value(digits[i]));
        }
        let decoded = unhex(digits)->0;
        assert(decoded.len() == bytes.len());
        assert forall|k: int| 0 <= k < bytes.len() implies #[trigger] decoded[k] == bytes[k] by {
            assert(hex_value(digits[2 * k]) == Some((bytes[k] / 16) as u8));
            assert(hex_value(digits[2 * k + 1]) == Some((bytes[k] % 16) as u8));
        }
        assert(decoded == bytes);
    }
}

/// A signature text: `sha256=` and 64 digits that spell the tag.
pub open spec fn signs(text: Seq<char>, tag: Seq<u8>) -> bool {
    &&& text.len() == 71
    &&& text.take(7) == "sha256="@
    &&& spells(text.skip(7), tag)
    &&& tag.len() == 32
}

/// A request carries the signature that spells the tag.
pub open spec fn signed(headers: Headers, tag: Seq<u8>) -> bool {
    exists|text: Seq<char>| #[trigger]
        carries(headers, "x-hub-signature-256"@, text) && signs(text, tag)
}

/// [`read_signature`] takes a header exactly where it is `sha256=` and 64 hexadecimal
/// digits, and gives the 32 bytes that they spell and the digits in lower case.
pub proof fn law_signature_is_what_the_digits_spell(header: &Option<String>, r: Option<Signature>)
    requires
        call_ensures(read_signature, (header,), r),
    ensures
        match r {
            Some(s) => {
                &&& header matches Some(text) && signs(text@, s.tag@)
                &&& s.digits@ == hex_text(s.tag@)
            },
            None => header matches Some(text) ==> forall|tag: Seq<u8>|
                !(#[trigger] signs(text@, tag)),
        },
{
    reveal_strlit("sha256=");
    if let Some(text) = header {
        let digits = text@.skip(7);
        if let Some(s) = r {
            lemma_spells(digits, s.tag@);
            lemma_unhex_lower(digits);
        } else {
            assert forall|tag: Seq<u8>| !(#[trigger] signs(text@, tag)) by {
                lemma_spells(digits, tag);
            }
        }
    }
}

/// A request is authentic exactly where it is signed.
pub(crate) proof fn lemma_authentic(secret: Seq<u8>, headers: Headers, body: Seq<u8>)
    ensures
        authentic(secret, headers, body) is Some <==> signed(headers, hmac_sha256(secret, body)),
        authentic(secret, headers, body) matches Some(digits) ==> digits == hex_text(
            hmac_sha256(secret, body),
        ),
{
    reveal_strlit("sha256=");
    let tag = hmac_sha256(secret, body);
    let name = "x-hub-signature-256"@;
    if authentic(secret, headers, body) is Some {
        let text = headers.field(name)->0;
        lemma_field(headers, name, text);
        lemma_spells(text.skip(7), tag);
        lemma_unhex_lower(text.skip(7));
        assert(signs(text, tag));
    }
    if signed(headers, tag) {
        let text = choose|text: Seq<char>| #[trigger]
            carries(headers, name, text) && signs(text, tag);
        lemma_field(headers, name, text);
        lemma_spells(text.skip(7), tag);
    }
}

/// Two texts agree but for the case of letters, where the second has small ones.
pub open spec fn ignoring_case(word: Seq<char>, small: Seq<char>) -> bool {
    &&& word.len() == small.len()
    &&& forall|i: int|
        0 <= i < word.len() ==> {
            let low = small[i] as int;
            #[trigger] word[i] as int == low || (97 <= low <= 122 && word[i] as int == low - 32)
        }
}

/// A content type names JSON: the word, in any case, between blanks, and behind them
/// nothing or `;` and whatever follows.
pub open spec fn names_json(value: Seq<char>) -> bool {
    exists|before: Seq<char>, word: Seq<char>, after: Seq<char>, rest: Seq<char>| #[trigger]
        cut_out(value, before, word, after, rest, ';') && ignoring_case(word, "application/json"@)
}

/// A request declares JSON in its content type.
pub open spec fn declares(headers: Headers) -> bool {
    exists|value: Seq<char>| #[trigger]
        carries(headers, "content-type"@, value) && names_json(value)
}

/// The media type is the one of JSON exactly where the value names it.
proof fn lemma_names_json(value: Seq<char>)
    ensures
        media_type(value) == "application/json"@ <==> names_json(value),
{
    reveal_strlit("application/json");
    let small = "application/json"@;
    assert(forall|i: int|
        0 <= i < small.len() ==> 47 <= #[trigger] small[i] as int && small[i] as int <= 122 && !(
        65 <= small[i] as int && small[i] as int <= 90) && small[i] as int != 59);
    let word = trim_end(trim_start(until(value, ';')));
    if media_type(value) == small {
        let rest = lemma_until_splits(value, ';');
        let before = lemma_trimmed_start(until(value, ';'));
        let after = lemma_trimmed_end(trim_start(until(value, ';')));
        assert(value == before + (word + after) + rest);
        assert(before + (word + after) == before + word + after);
        assert(cut_out(value, before, word, after, rest, ';'));
        assert forall|i: int| 0 <= i < word.len() implies {
            let low = small[i] as int;
            #[trigger] word[i] as int == low || (97 <= low <= 122 && word[i] as int == low - 32)
        } by {
            lemma_lower_char_by_char(word, i);
            assert(lower(word)[i] == small[i]);
        }
        assert(lower(word).len() == word.len());
        assert(ignoring_case(word, small));
    }
    if names_json(value) {
        let (before, named, after, rest) = choose|
            before: Seq<char>,
            named: Seq<char>,
            after: Seq<char>,
            rest: Seq<char>,
        | #[trigger]
            cut_out(value, before, named, after, rest, ';') && ignoring_case(named, small);
        assert forall|i: int| 0 <= i < named.len() implies #[trigger] named[i] != ';' && lower(
            named,
        )[i] == small[i] by {
            lemma_lower_char_by_char(named, i);
            assert(named[i] as int == small[i] as int || (97 <= small[i] as int && named[i] as int
                == small[i] as int - 32));
        }
        assert(named[0] as int == small[0] as int || named[0] as int == small[0] as int - 32);
        assert(named[15] as int == small[15] as int || named[15] as int == small[15] as int - 32);
        lemma_cut_out(value, before, named, after, rest, ';');
        assert(lower(named) == small);
    }
}

/// A request declares a JSON body exactly where its content type names JSON.
pub(crate) proof fn lemma_declares(headers: Headers)
    ensures
        declares_json(headers) <==> declares(headers),
{
    let name = "content-type"@;
    if declares_json(headers) {
        let value = headers.field(name)->0;
        lemma_field(headers, name, value);
        lemma_names_json(value);
    }
    if declares(headers) {
        let value = choose|value: Seq<char>| #[trigger]
            carries(headers, name, value) && names_json(value);
        lemma_field(headers, name, value);
        lemma_names_json(value);
    }
}

/// [`content_type_is_json`] tells whether the first content type is `application/json`
/// in any case, between blanks, with nothing or a parameter behind it.
pub proof fn law_content_type_is_json_exactly_where_it_names_it(headers: &Headers, r: bool)
    requires
        call_ensures(content_type_is_json, (headers,), r),
    ensures
        r <==> declares(*headers),
{
    lemma_declares(*headers);
}

/// A delivery identifier: 1 to 64 of `a` to `z`, `A` to `Z`, `0` to `9`, `-` and `_`.
pub open spec fn identifies_a_delivery(s: Seq<char>) -> bool {
    &&& 1 <= s.len() <= 64
    &&& forall|i: int|
        0 <= i < s.len() ==> {
            let c = #[trigger] s[i] as int;
            97 <= c <= 122 || 65 <= c <= 90 || 48 <= c <= 57 || c == 45 || c == 95
        }
}

/// An event name: 1 to 40 of `a` to `z`, `0` to `9` and `_`.
pub open spec fn names_an_event(s: Seq<char>) -> bool {
    &&& 1 <= s.len() <= 40
    &&& forall|i: int|
        0 <= i < s.len() ==> {
            let c = #[trigger] s[i] as int;
            97 <= c <= 122 || 48 <= c <= 57 || c == 95
        }
}

/// [`is_valid_delivery`] accepts exactly the delivery identifiers.
pub proof fn law_delivery_is_valid_exactly_where_it_identifies(s: &str, r: bool)
    requires
        call_ensures(is_valid_delivery, (s,), r),
    ensures
        r <==> identifies_a_delivery(s@),
{
}

/// [`is_valid_event`] accepts exactly the event names.
pub proof fn law_event_is_valid_exactly_where_it_names_one(s: &str, r: bool)
    requires
        call_ensures(is_valid_event, (s,), r),
    ensures
        r <==> names_an_event(s@),
{
}

/// [`sanitize_for_log`] keeps the first 128 of the characters that are not in U+0000 to
/// U+001F or in U+007F to U+009F, in their order.
pub proof fn law_log_text_is_the_first_printable_characters(s: &str, r: String)
    requires
        call_ensures(sanitize_for_log, (s,), r),
    ensures
        ({
            let kept = s@.filter(
                |c: char| !(c as int <= 31 || (127 <= c as int && c as int <= 159)),
            );
            &&& r@.len() <= 128
            &&& r@.len() == kept.len() || (r@.len() == 128 && kept.len() > 128)
            &&& r@ == kept.take(r@.len() as int)
        }),
{
    let keep = |c: char| !(c as int <= 31 || (127 <= c as int && c as int <= 159));
    let control = |c: char| !control_char(c);
    assert forall|c: char| #[trigger] keep(c) == control(c) by {}
    assert(keep =~= control);
    assert(printable(s@) == s@.filter(keep));
    assert(printable(s@).take(printable(s@).len() as int) == printable(s@));
}

/// A text is, character for character, one of a list.
pub open spec fn among(labels: Seq<String>, label: Seq<char>) -> bool {
    exists|j: int| 0 <= j < labels.len() && (#[trigger] labels[j])@ == label
}

/// Labels are all present exactly where each is one of the others.
pub(crate) proof fn lemma_among(expected: Seq<String>, labels: Seq<String>)
    ensures
        labels_present(views(expected), views(labels)) <==> forall|i: int|
            0 <= i < expected.len() ==> among(labels, (#[trigger] expected[i])@),
{
    let want = views(expected);
    let have = views(labels);
    if labels_present(want, have) {
        assert forall|i: int| 0 <= i < expected.len() implies among(
            labels,
            (#[trigger] expected[i])@,
        ) by {
            assert(have.contains(want[i]));
            let j = choose|j: int| 0 <= j < have.len() && have[j] == want[i];
            assert(labels[j]@ == have[j]);
        }
    } else {
        let i = choose|i: int| 0 <= i < want.len() && !have.contains(#[trigger] want[i]);
        assert(want[i] == expected[i]@);
        if among(labels, expected[i]@) {
            let j = choose|j: int| 0 <= j < labels.len() && (#[trigger] labels[j])@
                == expected[i]@;
            assert(have[j] == want[i]);
        }
    }
}

/// [`has_labels`] tells whether each expected label is, character for character, one of
/// the job's.
pub proof fn law_labels_are_compared_whole(expected: &Vec<String>, labels: &Vec<String>, r: bool)
    requires
        call_ensures(has_labels, (expected, labels), r),
    ensures
        r <==> forall|i: int|
            0 <= i < expected@.len() ==> among(labels@, (#[trigger] expected@[i])@),
{
    lemma_among(expected@, labels@);
}

/// A document is an object with this member.
pub open spec fn has(document: Json, name: Seq<char>, value: Json) -> bool {
    document matches Json::Object(members) && members.dom().contains(name) && members[name]
        == value
}

/// A document is an object with a member that is an object with this member.
pub open spec fn has_in(document: Json, outer: Seq<char>, name: Seq<char>, value: Json) -> bool {
    document matches Json::Object(members) && members.dom().contains(outer) && has(
        members[outer],
        name,
        value,
    )
}

/// The object `outer` of a document has this number as its `id`.
pub open spec fn has_id(document: Json, outer: Seq<char>, id: u64) -> bool {
    has_in(document, outer, "id"@, Json::Number(Some(id)))
}

/// The object `outer` of a document has a text under this name.
pub open spec fn has_text(
    document: Json,
    outer: Seq<char>,
    name: Seq<char>,
    text: Seq<char>,
) -> bool {
    has_in(document, outer, name, Json::Text(text))
}

/// A text is the one under this name, or empty where there is none.
pub open spec fn text_or_none(
    document: Json,
    outer: Seq<char>,
    name: Seq<char>,
    text: Seq<char>,
) -> bool {
    if exists|t: Seq<char>| has_text(document, outer, name, t) {
        has_text(document, outer, name, text)
    } else {
        text.len() == 0
    }
}

/// The labels of a document: the texts among `workflow_job.labels`.
pub open spec fn labels_of(document: Json, labels: Seq<Seq<char>>) -> bool {
    if exists|items: Seq<Json>|
        has_in(document, "workflow_job"@, "labels"@, Json::Array(items)) {
        exists|items: Seq<Json>|
            #![trigger has_in(document, "workflow_job"@, "labels"@, Json::Array(items))]
            has_in(document, "workflow_job"@, "labels"@, Json::Array(items)) && labels
                == items.filter(|item: Json| item is Text).map_values(|item: Json| item->Text_0)
    } else {
        labels.len() == 0
    }
}

/// A job carries a label: it is one of the items of `workflow_job.labels`.
pub open spec fn labelled(document: Json, label: Seq<char>) -> bool {
    exists|items: Seq<Json>|
        #![trigger has_in(document, "workflow_job"@, "labels"@, Json::Array(items))]
        has_in(document, "workflow_job"@, "labels"@, Json::Array(items)) && items.contains(
            Json::Text(label),
        )
}

/// A payload is what a document says under the names that are read, and nothing else.
pub open spec fn says(document: Json, p: PayloadView) -> bool {
    &&& forall|n: u64| #[trigger] has_id(document, "repository"@, n) <==> p.repo_id == Some(n)
    &&& p.private <==> has_in(document, "repository"@, "private"@, Json::Bool(true))
    &&& forall|t: Seq<char>| #[trigger]
        has_text(document, "repository"@, "visibility"@, t) <==> p.visibility == Some(t)
    &&& text_or_none(document, "repository"@, "full_name"@, p.repo)
    &&& if exists|t: Seq<char>| has(document, "action"@, Json::Text(t)) {
        has(document, "action"@, Json::Text(p.action))
    } else {
        p.action.len() == 0
    }
    &&& forall|n: u64| #[trigger]
        has_id(document, "workflow_job"@, n) <==> p.workflow_job_id == Some(n)
    &&& labels_of(document, p.labels)
    &&& text_or_none(document, "workflow_job"@, "head_branch"@, p.head_branch)
    &&& text_or_none(document, "workflow_job"@, "head_sha"@, p.head_sha)
    &&& text_or_none(document, "workflow_job"@, "name"@, p.job_name)
}

/// The texts of a list are its items that are texts.
proof fn lemma_texts(items: Seq<Json>)
    ensures
        texts(items) == items.filter(|item: Json| item is Text).map_values(
            |item: Json| item->Text_0,
        ),
    decreases items.len(),
{
    reveal(Seq::filter);
    let keep = |item: Json| item is Text;
    let text = |item: Json| item->Text_0;
    if items.len() > 0 {
        let front = items.drop_last();
        lemma_texts(front);
        if items.last() is Text {
            assert(items.filter(keep) == front.filter(keep).push(items.last()));
            assert(items.filter(keep).map_values(text) == front.filter(keep).map_values(text).push(
                text(items.last()),
            ));
        } else {
            assert(items.filter(keep) == front.filter(keep));
        }
    } else {
        assert(items.filter(keep).map_values(text) == Seq::<Seq<char>>::empty());
    }
}

/// What is nested in a document is what the document has there.
pub(crate) proof fn lemma_nested(document: Json, outer: Seq<char>, inner: Seq<char>, value: Json)
    ensures
        nested(document, outer, inner) == Some(value) <==> has_in(document, outer, inner, value),
{
}

/// The text that is read under a name is the one that the document has there.
proof fn lemma_text_read(document: Json, outer: Seq<char>, name: Seq<char>)
    ensures
        text_or_none(
            document,
            outer,
            name,
            crate::payload::text_or_empty(nested(document, outer, name)),
        ),
{
    let read = crate::payload::text_or_empty(nested(document, outer, name));
    if exists|t: Seq<char>| has_text(document, outer, name, t) {
        let t = choose|t: Seq<char>| has_text(document, outer, name, t);
        lemma_nested(document, outer, name, Json::Text(t));
    } else {
        if let Some(value) = nested(document, outer, name) {
            lemma_nested(document, outer, name, value);
            if let Json::Text(t) = value {
                assert(has_text(document, outer, name, t));
            }
        }
    }
}

/// What is read of a document is what the document says.
pub(crate) proof fn lemma_payload_says(document: Json)
    ensures
        says(document, payload_of(document)),
{
    let p = payload_of(document);
    assert forall|n: u64| #[trigger]
        has_id(document, "repository"@, n) <==> p.repo_id == Some(n) by {
        lemma_nested(document, "repository"@, "id"@, Json::Number(Some(n)));
    }
    assert forall|n: u64| #[trigger]
        has_id(document, "workflow_job"@, n) <==> p.workflow_job_id == Some(n) by {
        lemma_nested(document, "workflow_job"@, "id"@, Json::Number(Some(n)));
    }
    assert forall|t: Seq<char>| #[trigger]
        has_text(document, "repository"@, "visibility"@, t) <==> p.visibility == Some(t) by {
        lemma_nested(document, "repository"@, "visibility"@, Json::Text(t));
    }
    lemma_nested(document, "repository"@, "private"@, Json::Bool(true));
    lemma_text_read(document, "repository"@, "full_name"@);
    lemma_text_read(document, "workflow_job"@, "head_branch"@);
    lemma_text_read(document, "workflow_job"@, "head_sha"@);
    lemma_text_read(document, "workflow_job"@, "name"@);
    if exists|t: Seq<char>| has(document, "action"@, Json::Text(t)) {
        let t = choose|t: Seq<char>| has(document, "action"@, Json::Text(t));
        assert(document.member("action"@) == Some(Json::Text(t)));
    } else {
        if let Some(Json::Text(t)) = document.member("action"@) {
            assert(has(document, "action"@, Json::Text(t)));
        }
    }
    let (outer, inner) = ("workflow_job"@, "labels"@);
    if exists|items: Seq<Json>| has_in(document, outer, inner, Json::Array(items)) {
        let items = choose|items: Seq<Json>| has_in(document, outer, inner, Json::Array(items));
        lemma_nested(document, outer, inner, Json::Array(items));
        lemma_texts(items);
    } else {
        if let Some(Json::Array(items)) = nested(document, outer, inner) {
            lemma_nested(document, outer, inner, Json::Array(items));
            assert(has_in(document, outer, inner, Json::Array(items)));
        }
    }
}

/// [`parse_payload`] reads a body exactly where it parses, and gives what the document
/// says: the numbers under `repository.id` and `workflow_job.id` where they are unsigned
/// 64-bit integers, whatever stands beside them, and so for every other field.
pub proof fn law_payload_is_what_the_document_says(body: &[u8], r: Option<Payload>)
    requires
        call_ensures(parse_payload, (body,), r),
    ensures
        r is Some <==> parsed(body@) is Some,
        r matches Some(p) ==> says(parsed(body@)->0, p@),
        r matches Some(p) ==> {
            &&& p@.repo_id == p.repo_id
            &&& p@.private == p.private
            &&& p@.visibility is Some <==> p.visibility is Some
            &&& p.visibility matches Some(t) ==> p@.visibility == Some(t@)
            &&& p@.repo == p.repo@
            &&& p@.action == p.action@
            &&& p@.workflow_job_id == p.workflow_job_id
            &&& p@.labels.len() == p.labels@.len()
            &&& forall|i: int|
                0 <= i < p.labels@.len() ==> p@.labels[i] == (#[trigger] p.labels@[i])@
            &&& p@.head_branch == p.head_branch@
            &&& p@.head_sha == p.head_sha@
            &&& p@.job_name == p.job_name@
        },
{
    if let Some(document) = parsed(body@) {
        lemma_payload_says(document);
    }
}

/// Two documents agree on a member of a member.
pub open spec fn agree_in(one: Json, other: Json, outer: Seq<char>, name: Seq<char>) -> bool {
    forall|value: Json| #[trigger]
        has_in(one, outer, name, value) <==> has_in(other, outer, name, value)
}

/// Documents that agree on the members that are read give the same payload, whatever
/// else they hold.
pub proof fn law_payload_depends_on_what_is_read_alone(
    one: &[u8],
    other: &[u8],
    p: Payload,
    q: Payload,
)
    requires
        call_ensures(parse_payload, (one,), Some(p)),
        call_ensures(parse_payload, (other,), Some(q)),
        ({
            let (a, b) = (parsed(one@)->0, parsed(other@)->0);
            &&& agree_in(a, b, "repository"@, "id"@)
            &&& agree_in(a, b, "repository"@, "private"@)
            &&& agree_in(a, b, "repository"@, "visibility"@)
            &&& agree_in(a, b, "repository"@, "full_name"@)
            &&& forall|value: Json| #[trigger]
                has(a, "action"@, value) <==> has(b, "action"@, value)
            &&& agree_in(a, b, "workflow_job"@, "id"@)
            &&& agree_in(a, b, "workflow_job"@, "labels"@)
            &&& agree_in(a, b, "workflow_job"@, "head_branch"@)
            &&& agree_in(a, b, "workflow_job"@, "head_sha"@)
            &&& agree_in(a, b, "workflow_job"@, "name"@)
        }),
    ensures
        p@ == q@,
{
    let (a, b) = (parsed(one@)->0, parsed(other@)->0);
    lemma_agree(a, b, "repository"@, "id"@);
    lemma_agree(a, b, "repository"@, "private"@);
    lemma_agree(a, b, "repository"@, "visibility"@);
    lemma_agree(a, b, "repository"@, "full_name"@);
    lemma_agree(a, b, "workflow_job"@, "id"@);
    lemma_agree(a, b, "workflow_job"@, "labels"@);
    lemma_agree(a, b, "workflow_job"@, "head_branch"@);
    lemma_agree(a, b, "workflow_job"@, "head_sha"@);
    lemma_agree(a, b, "workflow_job"@, "name"@);
    if let Some(value) = a.member("action"@) {
        assert(has(a, "action"@, value));
        assert(has(b, "action"@, value));
    }
    if let Some(value) = b.member("action"@) {
        assert(has(b, "action"@, value));
        assert(has(a, "action"@, value));
    }
    assert(a.member("action"@) == b.member("action"@));
}

/// Documents that agree on a member of a member have the same nested there.
proof fn lemma_agree(one: Json, other: Json, outer: Seq<char>, name: Seq<char>)
    requires
        agree_in(one, other, outer, name),
    ensures
        nested(one, outer, name) == nested(other, outer, name),
{
    if let Some(value) = nested(one, outer, name) {
        lemma_nested(one, outer, name, value);
        lemma_nested(other, outer, name, value);
        assert(has_in(one, outer, name, value));
    }
    if let Some(value) = nested(other, outer, name) {
        lemma_nested(one, outer, name, value);
        lemma_nested(other, outer, name, value);
        assert(has_in(other, outer, name, value));
    }
}

} // verus!
