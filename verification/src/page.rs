//! The page that shows the graph: one document that holds the style sheet,
//! the serialized graph and the script.

use crate::text::{matches_at, occurs_at};
use vstd::prelude::*;
use vstd::string::*;
use vstd::utf8::{encode_utf8, is_ascii_chars, is_ascii_chars_encode_utf8};

verus! {

/// What an asset of the frontend is, by its file name.
#[derive(Clone, Copy, Debug, PartialEq, Eq, Structural)]
pub enum AssetKind {
    /// A script: the name ends in `.js`.
    Script,
    /// A style sheet: the name ends in `.css`.
    Style,
    /// Anything else.
    Other,
}

/// Whether `name` ends in `suffix`.
pub open spec fn ends_in(name: Seq<u8>, suffix: Seq<u8>) -> bool {
    occurs_at(name, suffix, name.len() - suffix.len())
}

/// The kind of the asset with the file name `name`, by the UTF-8 bytes that
/// the name ends in.
pub open spec fn kind_of(name: Seq<char>) -> AssetKind {
    if ends_in(encode_utf8(name), encode_utf8(".js"@)) {
        AssetKind::Script
    } else if ends_in(encode_utf8(name), encode_utf8(".css"@)) {
        AssetKind::Style
    } else {
        AssetKind::Other
    }
}

/// Whether `name` ends in `suffix`.
fn has_suffix(name: &[u8], suffix: &[u8]) -> (r: bool)
    ensures
        r == ends_in(name@, suffix@),
{
    if suffix.len() > name.len() {
        return false;
    }
    matches_at(name, suffix, name.len() - suffix.len())
}

/// The kind of the asset with the file name `name`.
pub fn asset_kind(name: &str) -> (r: AssetKind)
    ensures
        r == kind_of(name@),
{
    if has_suffix(name.as_bytes(), ".js".as_bytes()) {
        AssetKind::Script
    } else if has_suffix(name.as_bytes(), ".css".as_bytes()) {
        AssetKind::Style
    } else {
        AssetKind::Other
    }
}

/// The bytes of `</script`, which would end the script that holds the graph.
pub open spec fn script_close() -> Seq<u8> {
    seq![0x3cu8, 0x2fu8, 0x73u8, 0x63u8, 0x72u8, 0x69u8, 0x70u8, 0x74u8]
}

/// The bytes of `<\/script`, which say the same inside a script and end
/// nothing.
pub open spec fn script_close_escaped() -> Seq<u8> {
    seq![0x3cu8, 0x5cu8, 0x2fu8, 0x73u8, 0x63u8, 0x72u8, 0x69u8, 0x70u8, 0x74u8]
}

/// `s` with every `</script` replaced by `<\/script`, from the left.
pub open spec fn escaped(s: Seq<u8>) -> Seq<u8>
    decreases s.len(),
{
    if s.len() == 0 {
        Seq::empty()
    } else if occurs_at(s, script_close(), 0) {
        script_close_escaped() + escaped(s.skip(script_close().len() as int))
    } else {
        seq![s[0]] + escaped(s.skip(1))
    }
}

/// The literals of the escape are the bytes above.
proof fn lemma_escape_literals()
    ensures
        encode_utf8("</script"@) == script_close(),
        encode_utf8("<\\/script"@) == script_close_escaped(),
{
    reveal_strlit("</script");
    reveal_strlit("<\\/script");
    assert(is_ascii_chars("</script"@));
    assert(is_ascii_chars("<\\/script"@));
    is_ascii_chars_encode_utf8("</script"@);
    is_ascii_chars_encode_utf8("<\\/script"@);
    assert(encode_utf8("</script"@) =~= script_close());
    assert(encode_utf8("<\\/script"@) =~= script_close_escaped());
}

/// Adds `bytes` behind `out`.
fn append(out: &mut Vec<u8>, bytes: &[u8])
    ensures
        final(out)@ == old(out)@ + bytes@,
{
    let mut i: usize = 0;
    while i < bytes.len()
        invariant
            i <= bytes@.len(),
            out@ == old(out)@ + bytes@.subrange(0, i as int),
        decreases bytes.len() - i,
    {
        out.push(bytes[i]);
        assert(out@ =~= old(out)@ + bytes@.subrange(0, i + 1));
        i += 1;
    }
    assert(bytes@.subrange(0, i as int) =~= bytes@);
}

/// Replaces every `</script` in `json` by `<\/script`, so that the text can
/// stand inside a script element.
pub fn escape_script_close(json: &[u8]) -> (out: Vec<u8>)
    ensures
        out@ == escaped(json@),
{
    let close = "</script".as_bytes();
    let replacement = "<\\/script".as_bytes();
    proof {
        lemma_escape_literals();
    }
    let mut out: Vec<u8> = Vec::new();
    let mut i: usize = 0;
    assert(json@.skip(0) =~= json@);
    while i < json.len()
        invariant
            close@ == script_close(),
            replacement@ == script_close_escaped(),
            i <= json@.len(),
            out@ + escaped(json@.skip(i as int)) == escaped(json@),
        decreases json.len() - i,
    {
        let ghost rest = json@.skip(i as int);
        let found = json.len() - i >= close.len() && matches_at(json, close, i);
        proof {
            if occurs_at(json@, script_close(), i as int) {
                assert(rest.subrange(0, 8) =~= json@.subrange(i as int, i + 8));
            }
            if occurs_at(rest, script_close(), 0) {
                assert(rest.subrange(0, 8) =~= json@.subrange(i as int, i + 8));
            }
            assert(found == occurs_at(rest, script_close(), 0));
        }
        if found {
            append(&mut out, replacement);
            assert(rest.skip(8) =~= json@.skip(i + 8));
            i += close.len();
        } else {
            out.push(json[i]);
            assert(rest.skip(1) =~= json@.skip(i + 1));
            i += 1;
        }
        assert(out@ + escaped(json@.skip(i as int)) =~= escaped(json@));
    }
    assert(escaped(json@.skip(i as int)) =~= Seq::<u8>::empty());
    assert(out@ =~= escaped(json@));
    out
}

/// The page up to the style sheet.
pub const PAGE_HEAD: &'static str =
    "<!DOCTYPE html>\n<html lang=\"en\">\n<head>\n<meta charset=\"UTF-8\" />\n<meta name=\"viewport\" content=\"width=device-width, initial-scale=1.0\" />\n<title>cargo goodtimes</title>\n<style>";

/// The page between the style sheet and the graph.
pub const PAGE_BEFORE_GRAPH: &'static str =
    "</style>\n</head>\n<body>\n<div id=\"root\"></div>\n<script>window.__GRAPH_DATA__ = ";

/// The page between the graph and the script.
pub const PAGE_BEFORE_SCRIPT: &'static str = ";</script>\n<script type=\"module\">";

/// The page behind the script.
pub const PAGE_TAIL: &'static str = "</script>\n</body>\n</html>";

/// The page that shows a graph: the style sheet `css`, the serialized graph
/// `graph_json` with every `</script` escaped, and the script `js`, each in
/// its place in the document. The style sheet and the script stand as they
/// are.
pub open spec fn page_of(css: Seq<u8>, js: Seq<u8>, graph_json: Seq<u8>) -> Seq<u8> {
    encode_utf8(PAGE_HEAD@) + css + encode_utf8(PAGE_BEFORE_GRAPH@) + escaped(graph_json)
        + encode_utf8(PAGE_BEFORE_SCRIPT@) + js + encode_utf8(PAGE_TAIL@)
}

/// Assembles the page that shows a graph.
pub fn render_page(css: &[u8], js: &[u8], graph_json: &[u8]) -> (page: Vec<u8>)
    ensures
        page@ == page_of(css@, js@, graph_json@),
{
    let mut page: Vec<u8> = Vec::new();
    append(&mut page, PAGE_HEAD.as_bytes());
    append(&mut page, css);
    append(&mut page, PAGE_BEFORE_GRAPH.as_bytes());
    let graph = escape_script_close(graph_json);
    append(&mut page, graph.as_slice());
    append(&mut page, PAGE_BEFORE_SCRIPT.as_bytes());
    append(&mut page, js);
    append(&mut page, PAGE_TAIL.as_bytes());
    assert(page@ =~= page_of(css@, js@, graph_json@));
    page
}

} // verus!
