//! Rally JSON documents re-encoded as bulk-indexing items: an action line,
//! a newline, and the cleaned document on one line.

use crate::json::{
    object_json, object_member_string, object_member_text, object_members, object_remove,
    object_to_json, parse_json_line, parsed_json, JsonLine, Member, ParsedJson,
};
use crate::collectors::{lemma_ndjson_concat, ndjson};
use crate::composers::all_items;
use crate::text::{non_empty_lines, push_char, split_non_empty_lines, texts};
use crate::transforms::{
    item_texts, DocumentTransformer, Items, Transform, TransformError, TransformErrorKind,
};
use std::borrow::Cow;
use vstd::prelude::*;
use vstd::string::StringExecFns;

verus! {

/// Lower-case hexadecimal digit for `n` in `0..16`.
pub open spec fn hex_digit(n: int) -> char {
    if n < 10 {
        (48 + n) as char
    } else {
        (87 + n) as char
    }
}

/// What one character becomes inside a JSON string literal.
///
/// Quote and backslash get a backslash in front; newline, carriage return and
/// tab get their short forms; every other character below U+0020 is written
/// as `\u00XX`; all others stand for themselves.
pub open spec fn escape_char(c: char) -> Seq<char> {
    if c == '"' {
        seq!['\\', '"']
    } else if c == '\\' {
        seq!['\\', '\\']
    } else if c == '\n' {
        seq!['\\', 'n']
    } else if c == '\r' {
        seq!['\\', 'r']
    } else if c == '\t' {
        seq!['\\', 't']
    } else if (c as u32) < 0x20 {
        seq![
            '\\',
            'u',
            '0',
            '0',
            hex_digit((c as u32) as int / 16),
            hex_digit((c as u32) as int % 16),
        ]
    } else {
        seq![c]
    }
}

/// The escaped form of a whole string: the escapes of its characters, in order.
pub open spec fn escape_json(s: Seq<char>) -> Seq<char>
    decreases s.len(),
{
    if s.len() == 0 {
        Seq::empty()
    } else {
        escape_json(s.drop_last()) + escape_char(s.last())
    }
}

/// The action line that precedes a document in a bulk request.
pub open spec fn action_line(id: Option<Seq<char>>) -> Seq<char> {
    match id {
        Some(id) => "{\"index\":{\"_id\":\""@ + escape_json(id) + "\"}}"@,
        None => "{\"index\":{}}"@,
    }
}

fn hex_digit_char(n: u8) -> (c: char)
    requires
        n < 16,
    ensures
        c == hex_digit(n as int),
{
    if n < 10 {
        (48 + n) as char
    } else {
        (87 + n) as char
    }
}

fn push_escaped(out: &mut String, c: char)
    ensures
        final(out)@ == old(out)@ + escape_char(c),
{
    if c == '"' {
        out.append("\\\"");
        proof { reveal_strlit("\\\""); }
    } else if c == '\\' {
        out.append("\\\\");
        proof { reveal_strlit("\\\\"); }
    } else if c == '\n' {
        out.append("\\n");
        proof { reveal_strlit("\\n"); }
    } else if c == '\r' {
        out.append("\\r");
        proof { reveal_strlit("\\r"); }
    } else if c == '\t' {
        out.append("\\t");
        proof { reveal_strlit("\\t"); }
    } else if (c as u32) < 0x20 {
        let code: u8 = c as u8;
        out.append("\\u00");
        proof { reveal_strlit("\\u00"); }
        push_char(out, hex_digit_char(code / 16));
        push_char(out, hex_digit_char(code % 16));
    } else {
        push_char(out, c);
    }
    assert(out@ =~= old(out)@ + escape_char(c));
}

/// Escapes `s` for use inside a JSON string literal.
pub fn escape_json_string(s: &str) -> (escaped: String)
    ensures
        escaped@ == escape_json(s@),
{
    let mut escaped = String::new();
    for c in it: s.chars()
        invariant
            it.seq() == s@,
            escaped@ == escape_json(s@.take(it.index() as int)),
    {
        push_escaped(&mut escaped, c);
        proof {
            let next = s@.take(it.index() + 1);
            assert(next.drop_last() == s@.take(it.index() as int));
        }
    }
    assert(s@.take(s@.len() as int) == s@);
    escaped
}

/// Builds the action line for a document with the given id, or without one.
pub fn build_es_action_line(the_document_id: Option<&str>) -> (line: String)
    ensures
        line@ == action_line(
            match the_document_id {
                Some(id) => Some(id@),
                None => None,
            },
        ),
{
    match the_document_id {
        Some(id) => {
            let mut line = String::from_str("{\"index\":{\"_id\":\"");
            let escaped = escape_json_string(id);
            line.append(escaped.as_str());
            line.append("\"}}");
            line
        },
        None => String::from_str("{\"index\":{}}"),
    }
}

/// Whether a key names one of the source's bookkeeping fields, which are not
/// carried over.
pub open spec fn is_metadata_key(key: Seq<char>) -> bool {
    ||| key == "_rallyAPIMajor"@
    ||| key == "_rallyAPIMinor"@
    ||| key == "_ref"@
    ||| key == "_refObjectUUID"@
    ||| key == "_objectVersion"@
    ||| key == "_CreatedAt"@
}

/// The bookkeeping keys as a set.
pub open spec fn metadata_keys() -> Set<Seq<char>> {
    Set::new(|key: Seq<char>| is_metadata_key(key))
}

/// The members of a document that are carried over: all but the bookkeeping
/// fields at the top level. Values are left as they are, whatever they hold.
pub open spec fn strip_metadata(members: Map<Seq<char>, Member>) -> Map<Seq<char>, Member> {
    members.remove_keys(metadata_keys())
}

/// The bulk id of a document: its `ObjectID`, a string as it is, anything
/// else in its JSON text. A document without `ObjectID` has none.
pub open spec fn document_id(members: Map<Seq<char>, Member>) -> Option<Seq<char>> {
    if members.dom().contains("ObjectID"@) {
        match members["ObjectID"@].1 {
            Some(string) => Some(string),
            None => Some(members["ObjectID"@].0),
        }
    } else {
        None
    }
}

/// A document ready for indexing: its id, if it has one, and its body on one
/// line.
pub type CleanDocument = (Option<Seq<char>>, Seq<char>);

/// What one line of Rally JSON becomes, or why it cannot be used.
pub open spec fn clean_document(line: Seq<char>) -> Result<CleanDocument, TransformErrorKind> {
    match parsed_json(line) {
        ParsedJson::Invalid => Err(TransformErrorKind::InvalidJson),
        ParsedJson::Object(members) => match object_json(strip_metadata(members)) {
            Some(body) => Ok((document_id(members), body)),
            None => Err(TransformErrorKind::Unserializable),
        },
        ParsedJson::Other(text) => Ok((None, text)),
    }
}

/// The bulk item for one line: action line, newline, body.
pub open spec fn rally_item(line: Seq<char>) -> Result<Seq<char>, TransformErrorKind> {
    match clean_document(line) {
        Ok(document) => Ok(action_line(document.0) + seq!['\n'] + document.1),
        Err(kind) => Err(kind),
    }
}

/// The bulk items for a sequence of lines, in order; the first line that
/// fails decides the error.
pub open spec fn rally_items(lines: Seq<Seq<char>>) -> Items
    decreases lines.len(),
{
    if lines.len() == 0 {
        Ok(Seq::empty())
    } else {
        match rally_items(lines.drop_last()) {
            Err(e) => Err(e),
            Ok(items) => match rally_item(lines.last()) {
                Ok(item) => Ok(items.push(item)),
                Err(kind) => Err(TransformError { kind, line: (lines.len() - 1) as usize }),
            },
        }
    }
}

/// A failure among the first lines is the failure of the whole.
pub proof fn lemma_rally_items_first_error(lines: Seq<Seq<char>>, k: int)
    requires
        0 <= k <= lines.len(),
        rally_items(lines.take(k)) is Err,
    ensures
        rally_items(lines) == rally_items(lines.take(k)),
    decreases lines.len() - k,
{
    if k < lines.len() {
        assert(lines.take(k + 1).drop_last() == lines.take(k));
        lemma_rally_items_first_error(lines, k + 1);
    } else {
        assert(lines.take(k) == lines);
    }
}

/// Parses one Rally document, takes its id, drops its bookkeeping fields and
/// writes the rest back on one line.
pub fn clean_rally_document(line: &str) -> (r: Result<(Option<String>, String), TransformErrorKind>)
    ensures
        match r {
            Ok(document) => clean_document(line@) == Ok::<CleanDocument, TransformErrorKind>(
                (
                    match document.0 {
                        Some(id) => Some(id@),
                        None => None,
                    },
                    document.1@,
                ),
            ),
            Err(kind) => clean_document(line@) == Err::<CleanDocument, TransformErrorKind>(kind),
        },
{
    match parse_json_line(line) {
        Err(_) => Err(TransformErrorKind::InvalidJson),
        Ok(JsonLine::Other(text)) => Ok((None, text)),
        Ok(JsonLine::Object(mut object)) => {
            let ghost members = object_members(object);
            let the_document_identity = match object_member_string(&object, "ObjectID") {
                Some(string) => Some(string),
                None => object_member_text(&object, "ObjectID"),
            };
            object_remove(&mut object, "_rallyAPIMajor");
            object_remove(&mut object, "_rallyAPIMinor");
            object_remove(&mut object, "_ref");
            object_remove(&mut object, "_refObjectUUID");
            object_remove(&mut object, "_objectVersion");
            object_remove(&mut object, "_CreatedAt");
            assert(object_members(object) =~= strip_metadata(members));
            match object_to_json(&object) {
                Ok(the_cleaned_body) => Ok((the_document_identity, the_cleaned_body)),
                Err(_) => Err(TransformErrorKind::Unserializable),
            }
        },
    }
}

/// Turns one Rally document into its bulk item: the action line, a newline
/// and the cleaned document.
pub fn transform(raw: String) -> (r: Result<String, TransformErrorKind>)
    ensures
        match r {
            Ok(item) => rally_item(raw@) == Ok::<Seq<char>, TransformErrorKind>(item@),
            Err(kind) => rally_item(raw@) == Err::<Seq<char>, TransformErrorKind>(kind),
        },
{
    rally_line_item(raw.as_str())
}

fn rally_line_item(line: &str) -> (r: Result<String, TransformErrorKind>)
    ensures
        match r {
            Ok(item) => rally_item(line@) == Ok::<Seq<char>, TransformErrorKind>(item@),
            Err(kind) => rally_item(line@) == Err::<Seq<char>, TransformErrorKind>(kind),
        },
{
    match clean_rally_document(line) {
        Err(kind) => Err(kind),
        Ok((id, body)) => {
            let mut item = match &id {
                Some(id) => build_es_action_line(Some(id.as_str())),
                None => build_es_action_line(None),
            };
            push_char(&mut item, '\n');
            item.append(body.as_str());
            assert(item@ =~= action_line(clean_document(line@).unwrap().0) + seq!['\n'] + body@);
            Ok(item)
        },
    }
}

/// Rally JSON documents, one per line, re-encoded for a bulk endpoint.
#[derive(Debug, Clone, Copy, PartialEq, Eq, Structural)]
pub struct RallyS3ToEs;

impl Transform for RallyS3ToEs {
    open spec fn items_of(&self, page: Seq<char>) -> Items {
        rally_items(non_empty_lines(page))
    }

    fn transform<'a>(&self, raw_source_page: &'a str) -> (r: Result<
        Vec<Cow<'a, str>>,
        TransformError,
    >)
        ensures
            r is Ok ==> forall|i: int|
                0 <= i < r.unwrap().len() ==> (#[trigger] r.unwrap()[i]) is Owned,
    {
        let lines = split_non_empty_lines(raw_source_page);
        let mut items: Vec<Cow<'a, str>> = Vec::new();
        let mut i: usize = 0;
        proof {
            assert(texts(lines@).take(0) =~= Seq::empty());
            assert(item_texts(items@) =~= Seq::empty());
        }
        while i < lines.len()
            invariant
                i <= lines.len(),
                items.len() == i,
                forall|k: int| 0 <= k < items.len() ==> (#[trigger] items[k]) is Owned,
                texts(lines@) == non_empty_lines(raw_source_page@),
                rally_items(texts(lines@).take(i as int)) == Ok::<Seq<Seq<char>>, TransformError>(
                    item_texts(items@),
                ),
            decreases lines.len() - i,
        {
            proof {
                assert(texts(lines@).take(i + 1).drop_last() == texts(lines@).take(i as int));
                assert(texts(lines@).take(i + 1).last() == lines[i as int]@);
            }
            match rally_line_item(lines[i].as_str()) {
                Ok(item) => {
                    let ghost before = item_texts(items@);
                    items.push(Cow::Owned(item));
                    assert(item_texts(items@) =~= before.push(item@));
                },
                Err(kind) => {
                    proof {
                        lemma_rally_items_first_error(texts(lines@), i + 1);
                    }
                    return Err(TransformError { kind, line: i });
                },
            }
            i += 1;
        }
        assert(texts(lines@).take(i as int) == texts(lines@));
        Ok(items)
    }
}

/// No bookkeeping field is left at the top level of a cleaned document, and
/// every other member is there as it was, with the value it had: what lies
/// inside a value is never looked at, so a field of the same name further
/// down stays.
pub proof fn lemma_metadata_stripped(members: Map<Seq<char>, Member>)
    ensures
        forall|key: Seq<char>|
            is_metadata_key(key) ==> !(#[trigger] strip_metadata(members).dom().contains(key)),
        forall|key: Seq<char>|
            !is_metadata_key(key) ==> (#[trigger] strip_metadata(members).dom().contains(key))
                == members.dom().contains(key),
        forall|key: Seq<char>|
            !is_metadata_key(key) && members.dom().contains(key) ==> (#[trigger] strip_metadata(
                members,
            )[key]) == members[key],
{
    assert forall|key: Seq<char>| is_metadata_key(key) implies !(#[trigger] strip_metadata(
        members,
    ).dom().contains(key)) by {
        assert(metadata_keys().contains(key));
    }
    assert forall|key: Seq<char>| !is_metadata_key(key) implies (#[trigger] strip_metadata(
        members,
    ).dom().contains(key)) == members.dom().contains(key) by {
        assert(!metadata_keys().contains(key));
    }
    assert forall|key: Seq<char>|
        !is_metadata_key(key) && members.dom().contains(key) implies (#[trigger] strip_metadata(
        members,
    )[key]) == members[key] by {
        assert(!metadata_keys().contains(key));
    }
}

/// The body of a cleaned object is written from the members that
/// [`strip_metadata`] leaves, and from nothing else.
pub proof fn lemma_clean_body_has_no_metadata(line: Seq<char>, members: Map<Seq<char>, Member>)
    requires
        parsed_json(line) == ParsedJson::Object(members),
        clean_document(line) is Ok,
    ensures
        object_json(strip_metadata(members)) == Some(clean_document(line).unwrap().1),
        clean_document(line).unwrap().0 == document_id(members),
        forall|key: Seq<char>|
            is_metadata_key(key) ==> !(#[trigger] strip_metadata(members).dom().contains(key)),
{
    lemma_metadata_stripped(members);
}

/// The non-empty lines of all pages, page after page.
pub open spec fn all_lines(pages: Seq<Seq<char>>) -> Seq<Seq<char>>
    decreases pages.len(),
{
    if pages.len() == 0 {
        Seq::empty()
    } else {
        all_lines(pages.drop_last()) + non_empty_lines(pages.last())
    }
}

/// The two lines that one document contributes to a bulk request: its
/// action line and its body, each ended by a newline.
pub open spec fn bulk_pair(document: CleanDocument) -> Seq<char> {
    action_line(document.0) + seq!['\n'] + document.1 + seq!['\n']
}

/// The pairs of a sequence of documents, one after the other.
pub open spec fn bulk_pairs(documents: Seq<CleanDocument>) -> Seq<char>
    decreases documents.len(),
{
    if documents.len() == 0 {
        Seq::empty()
    } else {
        bulk_pairs(documents.drop_last()) + bulk_pair(documents.last())
    }
}

/// The cleaned documents of a sequence of lines, one per line.
pub open spec fn documents_of(lines: Seq<Seq<char>>) -> Seq<CleanDocument> {
    Seq::new(lines.len(), |i: int| clean_document(lines[i]).unwrap())
}

/// The items of lines that can all be transformed: one per line, each the
/// action line of the line's document, a newline and its body.
pub proof fn lemma_rally_items_shape(lines: Seq<Seq<char>>)
    requires
        rally_items(lines) is Ok,
    ensures
        rally_items(lines).unwrap().len() == lines.len(),
        forall|i: int|
            0 <= i < lines.len() ==> (#[trigger] clean_document(lines[i])) is Ok
                && rally_items(lines).unwrap()[i] == action_line(
                clean_document(lines[i]).unwrap().0,
            ) + seq!['\n'] + clean_document(lines[i]).unwrap().1,
        ndjson(rally_items(lines).unwrap()) == bulk_pairs(documents_of(lines)),
    decreases lines.len(),
{
    if lines.len() > 0 {
        lemma_rally_items_shape(lines.drop_last());
        let items = rally_items(lines).unwrap();
        assert(items.drop_last() =~= rally_items(lines.drop_last()).unwrap());
        assert forall|i: int| 0 <= i < lines.len() implies (#[trigger] clean_document(
            lines[i],
        )) is Ok && items[i] == action_line(clean_document(lines[i]).unwrap().0) + seq!['\n']
            + clean_document(lines[i]).unwrap().1 by {
            if i < lines.len() - 1 {
                assert(lines.drop_last()[i] == lines[i]);
            }
        }
        assert(documents_of(lines).drop_last() =~= documents_of(lines.drop_last()));
        assert(ndjson(items) =~= bulk_pairs(documents_of(lines)));
    } else {
        assert(documents_of(lines) =~= Seq::empty());
    }
}

/// The pairs of two runs of documents, one after the other.
pub proof fn lemma_bulk_pairs_concat(first: Seq<CleanDocument>, second: Seq<CleanDocument>)
    ensures
        bulk_pairs(first + second) == bulk_pairs(first) + bulk_pairs(second),
    decreases second.len(),
{
    if second.len() == 0 {
        assert(first + second =~= first);
        assert(bulk_pairs(first) + bulk_pairs(second) =~= bulk_pairs(first));
    } else {
        lemma_bulk_pairs_concat(first, second.drop_last());
        assert((first + second).drop_last() =~= first + second.drop_last());
        assert((first + second).last() == second.last());
        assert(bulk_pairs(first + second) =~= bulk_pairs(first) + bulk_pairs(second));
    }
}

/// A bulk payload is pairs of lines, one pair for every non-empty line of
/// the pages: where the pages can be transformed, their items framed as
/// newline-delimited JSON are the action line and the body of each
/// document in turn, each ended by a newline.
pub proof fn lemma_bulk_payload_is_pairs(pages: Seq<Seq<char>>)
    requires
        all_items(DocumentTransformer::RallyS3ToEs(RallyS3ToEs), pages) is Ok,
    ensures
        documents_of(all_lines(pages)).len() == all_lines(pages).len(),
        forall|i: int|
            0 <= i < all_lines(pages).len() ==> (#[trigger] clean_document(
                all_lines(pages)[i],
            )) is Ok,
        ndjson(all_items(DocumentTransformer::RallyS3ToEs(RallyS3ToEs), pages).unwrap())
            == bulk_pairs(documents_of(all_lines(pages))),
    decreases pages.len(),
{
    let transformer = DocumentTransformer::RallyS3ToEs(RallyS3ToEs);
    if pages.len() == 0 {
        assert(documents_of(all_lines(pages)) =~= Seq::empty());
    } else {
        lemma_bulk_payload_is_pairs(pages.drop_last());
        let before = all_lines(pages.drop_last());
        let lines = non_empty_lines(pages.last());
        assert(transformer.items_of(pages.last()) == rally_items(lines));
        lemma_rally_items_shape(lines);
        let items_before = all_items(transformer, pages.drop_last()).unwrap();
        let items_last = rally_items(lines).unwrap();
        lemma_ndjson_concat(items_before, items_last);
        assert(documents_of(before + lines) =~= documents_of(before) + documents_of(lines));
        lemma_bulk_pairs_concat(documents_of(before), documents_of(lines));
        assert forall|i: int| 0 <= i < all_lines(pages).len() implies (#[trigger] clean_document(
            all_lines(pages)[i],
        )) is Ok by {
            if i < before.len() {
                assert(all_lines(pages)[i] == before[i]);
            } else {
                assert(all_lines(pages)[i] == lines[i - before.len()]);
            }
        }
    }
}

/// The value of a lower-case hexadecimal digit.
pub open spec fn hex_value(c: char) -> int {
    if ('0' as int) <= (c as int) <= ('9' as int) {
        c as int - 48
    } else {
        c as int - 87
    }
}

/// The character that stands behind a backslash in a short escape.
pub open spec fn short_escape(c: char) -> char {
    if c == 'n' {
        '\n'
    } else if c == 'r' {
        '\r'
    } else if c == 't' {
        '\t'
    } else {
        c
    }
}

/// What a reader of JSON makes of the inside of a string literal: a
/// backslash and `u` with four digits stand for the character of that
/// number, a backslash and another character for a short escape, and any
/// other character for itself.
pub open spec fn unescape_json(text: Seq<char>) -> Seq<char>
    decreases text.len(),
{
    if text.len() == 0 {
        Seq::empty()
    } else if text[0] != '\\' {
        seq![text[0]] + unescape_json(text.skip(1))
    } else if text.len() < 2 {
        Seq::empty()
    } else if text[1] != 'u' {
        seq![short_escape(text[1])] + unescape_json(text.skip(2))
    } else if text.len() < 6 {
        Seq::empty()
    } else {
        seq![
            (hex_value(text[2]) * 4096 + hex_value(text[3]) * 256 + hex_value(text[4]) * 16
                + hex_value(text[5])) as char,
        ] + unescape_json(text.skip(6))
    }
}

/// The escaped form of a text in two parts is the escaped form of the
/// first part followed by that of the second.
pub proof fn lemma_escape_json_concat(first: Seq<char>, second: Seq<char>)
    ensures
        escape_json(first + second) == escape_json(first) + escape_json(second),
    decreases second.len(),
{
    if second.len() == 0 {
        assert(first + second =~= first);
        assert(escape_json(first) + escape_json(second) =~= escape_json(first));
    } else {
        lemma_escape_json_concat(first, second.drop_last());
        assert((first + second).drop_last() =~= first + second.drop_last());
        assert((first + second).last() == second.last());
        assert(escape_json(first + second) =~= escape_json(first) + escape_json(second));
    }
}

proof fn lemma_unescape_one(c: char, rest: Seq<char>)
    ensures
        unescape_json(escape_char(c) + rest) == seq![c] + unescape_json(rest),
{
    let text = escape_char(c) + rest;
    if c == '"' || c == '\\' || c == '\n' || c == '\r' || c == '\t' {
        assert(text[0] == '\\');
        assert(text.skip(2) =~= rest);
    } else if (c as u32) < 0x20 {
        let high = (c as u32) as int / 16;
        let low = (c as u32) as int % 16;
        assert(text[0] == '\\');
        assert(text[1] == 'u');
        assert(text[2] == '0');
        assert(text[3] == '0');
        assert(text[4] == hex_digit(high));
        assert(text[5] == hex_digit(low));
        assert(hex_value(hex_digit(high)) == high);
        assert(hex_value(hex_digit(low)) == low);
        assert(hex_value('0') == 0);
        assert((high * 16 + low) as char == c);
        assert(text.skip(6) =~= rest);
    } else {
        assert(text[0] == c);
        assert(text.skip(1) =~= rest);
    }
}

/// An escaped id reads back as the id: whatever characters a text holds,
/// a reader of JSON finds that text again in its escaped form.
pub proof fn lemma_escaped_reads_back(text: Seq<char>)
    ensures
        unescape_json(escape_json(text)) == text,
    decreases text.len(),
{
    if text.len() > 0 {
        let head = seq![text[0]];
        let rest = text.skip(1);
        assert(head + rest =~= text);
        lemma_escape_json_concat(head, rest);
        assert(head.drop_last() =~= Seq::<char>::empty());
        assert(escape_json(head) =~= escape_char(text[0])) by {
            assert(escape_json(head.drop_last()) =~= Seq::<char>::empty());
        }
        lemma_unescape_one(text[0], escape_json(rest));
        lemma_escaped_reads_back(rest);
    }
}

/// Whether a character is none of the control characters below U+0020.
pub open spec fn is_printable(c: char) -> bool {
    (c as u32) >= 0x20
}

/// An escaped text holds no character below U+0020: no raw newline,
/// whatever the text, so an action line is one line.
pub proof fn lemma_escaped_has_no_control_character(text: Seq<char>)
    ensures
        forall|j: int|
            0 <= j < escape_json(text).len() ==> is_printable(#[trigger] escape_json(text)[j]),
    decreases text.len(),
{
    if text.len() > 0 {
        lemma_escaped_has_no_control_character(text.drop_last());
        let before = escape_json(text.drop_last());
        let piece = escape_char(text.last());
        assert forall|k: int| 0 <= k < piece.len() implies is_printable(#[trigger] piece[k]) by {
            let c = text.last();
            if c == '"' || c == '\\' || c == '\n' || c == '\r' || c == '\t' {
            } else if (c as u32) < 0x20 {
                let high = (c as u32) as int / 16;
                let low = (c as u32) as int % 16;
                assert(is_printable(hex_digit(high)));
                assert(is_printable(hex_digit(low)));
            } else {
            }
        }
        assert forall|j: int| 0 <= j < escape_json(text).len() implies is_printable(
            #[trigger] escape_json(text)[j],
        ) by {
            if j < before.len() {
                assert(escape_json(text)[j] == before[j]);
            } else {
                assert(escape_json(text)[j] == piece[j - before.len()]);
            }
        }
    }
}

} // verus!
