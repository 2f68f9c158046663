//! Heuristics that tell generated and minified sources apart from
//! hand-written ones.
use crate::language::Language;
use crate::text::{byte_lines_of, bytes_contain, lemma_lines_bounded, lines_state, occurs_in, strip_cr, total_len};
use vstd::prelude::*;
use vstd::string::StringSliceAdditionalSpecFns;
use vstd::utf8::encode_utf8;

verus! {

/// The header that protoc writes into the files it generates.
pub const PROTOBUF_HEADER: &'static str = "Generated by the protocol buffer compiler.  DO NOT EDIT!";

/// The header that the Thrift compiler writes into the files it generates.
pub const THRIFT_HEADER: &'static str = "Autogenerated by Thrift Compiler";

/// The number of leading bytes of a file that are searched for markers.
pub const MAX_HEADER_SIZE: usize = 400;

/// The part of a file searched for markers: its first `MAX_HEADER_SIZE`
/// bytes, or the whole file where it is shorter. The markers are ASCII, so
/// searching bytes finds exactly the markers written in the text.
pub open spec fn header(content: Seq<u8>) -> Seq<u8> {
    if content.len() <= MAX_HEADER_SIZE {
        content
    } else {
        content.subrange(0, MAX_HEADER_SIZE as int)
    }
}

/// The markers that code generators leave in files of `language`.
pub open spec fn generated_markers(language: Language) -> Seq<Seq<char>> {
    match language {
        Language::Go => seq!["Code generated by"@, PROTOBUF_HEADER@, THRIFT_HEADER@],
        Language::Java => seq![
            "generated by the protocol buffer compiler"@,
            PROTOBUF_HEADER@,
            THRIFT_HEADER@,
        ],
        Language::JavaScript | Language::TypeScript => seq![
            "Generated by PEG.js"@,
            "GENERATED CODE -- DO NOT EDIT!"@,
            THRIFT_HEADER@,
        ],
        Language::Python => seq![
            "Generated protocol buffer code"@,
            "Generated by the gRPC Python protocol compiler plugin"@,
            "Code generated by"@,
            PROTOBUF_HEADER@,
            THRIFT_HEADER@,
        ],
        Language::Ruby => seq![PROTOBUF_HEADER@, THRIFT_HEADER@],
        _ => seq![],
    }
}

/// Whether the header of `content` holds one of the markers of `language`.
pub open spec fn is_generated(content: Seq<u8>, language: Language) -> bool {
    exists|i: int|
        0 <= i < generated_markers(language).len() && occurs_in(
            header(content),
            encode_utf8(#[trigger] generated_markers(language)[i]),
        )
}

/// The markers of `language`.
fn marker_strs(language: Language) -> (r: Vec<&'static str>)
    ensures
        r@.map_values(|m: &str| m@) == generated_markers(language),
{
    let r = match language {
        Language::Go => vec!["Code generated by", PROTOBUF_HEADER, THRIFT_HEADER],
        Language::Java => vec![
            "generated by the protocol buffer compiler",
            PROTOBUF_HEADER,
            THRIFT_HEADER,
        ],
        Language::JavaScript | Language::TypeScript => vec![
            "Generated by PEG.js",
            "GENERATED CODE -- DO NOT EDIT!",
            THRIFT_HEADER,
        ],
        Language::Python => vec![
            "Generated protocol buffer code",
            "Generated by the gRPC Python protocol compiler plugin",
            "Code generated by",
            PROTOBUF_HEADER,
            THRIFT_HEADER,
        ],
        Language::Ruby => vec![PROTOBUF_HEADER, THRIFT_HEADER],
        _ => vec![],
    };
    assert(r@.map_values(|m: &str| m@) =~= generated_markers(language));
    r
}

/// Whether `full_content` was written by a code generator: its header holds
/// a marker of `language`. Languages without markers are never generated.
pub fn is_generated_file(full_content: &str, language: &Language) -> (r: bool)
    ensures
        r == is_generated(full_content.spec_bytes(), *language),
{
    let bytes = full_content.as_bytes();
    let content = if bytes.len() > MAX_HEADER_SIZE {
        vstd::slice::slice_subrange(bytes, 0, MAX_HEADER_SIZE)
    } else {
        bytes
    };
    assert(content@ == header(full_content.spec_bytes()));
    let markers = marker_strs(*language);
    let ghost ms = generated_markers(*language);
    let mut i: usize = 0;
    while i < markers.len()
        invariant
            i <= markers@.len(),
            ms == markers@.map_values(|m: &str| m@),
            ms == generated_markers(*language),
            content@ == header(full_content.spec_bytes()),
            forall|k: int| 0 <= k < i ==> !occurs_in(content@, encode_utf8(#[trigger] ms[k])),
        decreases markers.len() - i,
    {
        let m: &str = markers[i];
        assert(ms[i as int] == m@);
        if bytes_contain(content, m.as_bytes()) {
            assert(occurs_in(
                header(full_content.spec_bytes()),
                encode_utf8(generated_markers(*language)[i as int]),
            ));
            return true;
        }
        i = i + 1;
    }
    false
}

/// Whether `content` is minified: a JavaScript file whose lines are, on
/// average, longer than 110 bytes. A file without lines is not minified,
/// nor is one of another language.
pub open spec fn is_minified(content: Seq<u8>, language: Language) -> bool {
    let lines = byte_lines_of(content);
    language == Language::JavaScript && lines.len() > 0 && total_len(lines) > 110 * lines.len()
}

/// Whether `content` is minified: a JavaScript file whose lines are, on
/// average, longer than 110 bytes.
pub fn is_minified_file(content: &str, language: &Language) -> (r: bool)
    ensures
        r == is_minified(content.spec_bytes(), *language),
{
    if *language != Language::JavaScript {
        return false;
    }
    let bytes = content.as_bytes();
    let ghost b = bytes@;
    let mut count: usize = 0;
    let mut total: usize = 0;
    let mut cur_len: usize = 0;
    let mut cur_ends_cr = false;
    let mut i: usize = 0;
    while i < bytes.len()
        invariant
            i <= b.len(),
            b == bytes@,
            b.len() == bytes.len(),
            count as int == lines_state(b.subrange(0, i as int), 10u8, 13u8).0.len(),
            total as int == total_len(lines_state(b.subrange(0, i as int), 10u8, 13u8).0),
            cur_len as int == lines_state(b.subrange(0, i as int), 10u8, 13u8).1.len(),
            cur_ends_cr == (cur_len > 0 && lines_state(b.subrange(0, i as int), 10u8, 13u8).1.last()
                == 13u8),
        decreases bytes.len() - i,
    {
        let ghost prefix = b.subrange(0, i + 1);
        assert(prefix.drop_last() =~= b.subrange(0, i as int));
        proof {
            lemma_lines_bounded(prefix, 10u8, 13u8);
            lemma_lines_bounded(b.subrange(0, i as int), 10u8, 13u8);
        }
        let c = bytes[i];
        if c == 10u8 {
            let ghost (lines, cur) = lines_state(b.subrange(0, i as int), 10u8, 13u8);
            let len = if cur_ends_cr {
                cur_len - 1
            } else {
                cur_len
            };
            assert(len == strip_cr(cur, 13u8).len());
            assert(lines.push(strip_cr(cur, 13u8)).drop_last() =~= lines);
            count = count + 1;
            total = total + len;
            cur_len = 0;
            cur_ends_cr = false;
        } else {
            cur_len = cur_len + 1;
            cur_ends_cr = c == 13u8;
        }
        i = i + 1;
    }
    assert(b.subrange(0, b.len() as int) =~= b);
    proof {
        lemma_lines_bounded(b, 10u8, 13u8);
    }
    let ghost (lines, cur) = lines_state(b, 10u8, 13u8);
    if cur_len > 0 {
        assert(lines.push(cur).drop_last() =~= lines);
        count = count + 1;
        total = total + cur_len;
    }
    if count == 0 {
        false
    } else {
        (total as u128) > 110 * (count as u128)
    }
}

} // verus!
