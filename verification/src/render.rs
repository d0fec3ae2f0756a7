//! Filename renderer: apply a compiled token sequence to one file's tags.
//!
//! Rendering is all-or-nothing: the first referenced field that is absent
//! fails the whole render, and nothing partial is produced. Per-field
//! formatting: track numbers shorter than two characters get a leading zero,
//! titles have every `/` replaced by `-` (filesystem safety), and the other
//! fields pass through unchanged. Literal tokens are appended verbatim; the
//! source file's extension is appended after a dot.

use vstd::prelude::*;

use crate::fields::FieldName;
use crate::fields::MediaTags;
use crate::format::FormatToken;
use crate::format::TokenView;

verus! {

/// Why a render failed: a referenced field is absent from the tags.
#[derive(Clone, Copy, PartialEq, Eq, Structural, Debug)]
pub enum RenderError {
    MissingField(FieldName),
}

/// A track value shorter than two characters gets one leading zero.
pub open spec fn pad_track_spec(v: Seq<char>) -> Seq<char> {
    if v.len() < 2 {
        seq!['0'] + v
    } else {
        v
    }
}

/// Every `/` in a title becomes `-`; all other characters are kept.
pub open spec fn sanitize_title_spec(v: Seq<char>) -> Seq<char> {
    Seq::new(v.len(), |i: int| if v[i] == '/' { '-' } else { v[i] })
}

/// The formatting rule of each field: padding for the track, sanitization
/// for the title, identity for the rest.
pub open spec fn format_field_spec(f: FieldName, v: Seq<char>) -> Seq<char> {
    match f {
        FieldName::Track => pad_track_spec(v),
        FieldName::Title => sanitize_title_spec(v),
        _ => v,
    }
}

/// What one token contributes to the filename, when its field is present.
pub open spec fn rendered_fragment(t: TokenView, tags: Map<FieldName, Seq<char>>) -> Seq<char> {
    match t {
        TokenView::Literal(l) => l,
        TokenView::Field(f) => format_field_spec(f, tags[f]),
    }
}

/// Every field the token sequence references is present in the tags.
pub open spec fn all_fields_present(toks: Seq<TokenView>, tags: Map<FieldName, Seq<char>>) -> bool {
    forall|i: int|
        0 <= i < toks.len() ==> (#[trigger] toks[i] matches TokenView::Field(f)
            ==> tags.contains_key(f))
}

/// The base filename from a token sequence: the fragments in token order, or
/// the first referenced field that is absent.
pub open spec fn render_tokens_spec(toks: Seq<TokenView>, tags: Map<FieldName, Seq<char>>) -> Result<
    Seq<char>,
    FieldName,
>
    decreases toks.len(),
{
    if toks.len() == 0 {
        Ok(Seq::<char>::empty())
    } else {
        match render_tokens_spec(toks.drop_last(), tags) {
            Err(f) => Err(f),
            Ok(prefix) => match toks.last() {
                TokenView::Literal(l) => Ok(prefix + l),
                TokenView::Field(f) => if tags.contains_key(f) {
                    Ok(prefix + format_field_spec(f, tags[f]))
                } else {
                    Err(f)
                },
            },
        }
    }
}

/// The full filename: the rendered base, a dot, and the extension.
pub open spec fn render_spec(
    toks: Seq<TokenView>,
    tags: Map<FieldName, Seq<char>>,
    ext: Seq<char>,
) -> Result<Seq<char>, FieldName> {
    match render_tokens_spec(toks, tags) {
        Ok(base) => Ok(base + seq!['.'] + ext),
        Err(f) => Err(f),
    }
}

/// Rendering succeeds exactly when every referenced field is present.
pub proof fn lemma_render_ok_iff(toks: Seq<TokenView>, tags: Map<FieldName, Seq<char>>)
    ensures
        render_tokens_spec(toks, tags) is Ok <==> all_fields_present(toks, tags),
    decreases toks.len(),
{
    if toks.len() == 0 {
    } else {
        lemma_render_ok_iff(toks.drop_last(), tags);
        assert(forall|i: int| 0 <= i < toks.len() - 1 ==> toks.drop_last()[i] == toks[i]);
        if all_fields_present(toks, tags) {
            assert(all_fields_present(toks.drop_last(), tags));
            assert(toks.last() == toks[toks.len() - 1]);
        } else {
            if all_fields_present(toks.drop_last(), tags) {
                let i = choose|i: int|
                    0 <= i < toks.len() && (#[trigger] toks[i] matches TokenView::Field(f)
                        && !tags.contains_key(f));
                assert(i == toks.len() - 1);
            }
        }
    }
}

/// A failed prefix settles the render: the first missing field stays the
/// error of the whole sequence.
proof fn lemma_render_error_persists(
    toks: Seq<TokenView>,
    tags: Map<FieldName, Seq<char>>,
    n: int,
)
    requires
        0 <= n <= toks.len(),
        render_tokens_spec(toks.take(n), tags) is Err,
    ensures
        render_tokens_spec(toks, tags) == render_tokens_spec(toks.take(n), tags),
    decreases toks.len() - n,
{
    if n == toks.len() {
        assert(toks.take(n) =~= toks);
    } else {
        assert(toks.take(n + 1).drop_last() =~= toks.take(n));
        assert(toks.take(n + 1).last() == toks[n]);
        lemma_render_error_persists(toks, tags, n + 1);
    }
}

/// Add one leading zero to a track value shorter than two characters.
pub fn pad_track(value: &str) -> (r: String)
    ensures
        r@ == pad_track_spec(value@),
{
    if value.unicode_len() < 2 {
        let mut out = String::from_str("0");
        proof {
            reveal_strlit("0");
            assert("0"@ =~= seq!['0']);
        }
        out.append(value);
        out
    } else {
        value.to_owned()
    }
}

/// Replace every `/` of a title with `-`.
pub fn sanitize_title(value: &str) -> (r: String)
    ensures
        r@ == sanitize_title_spec(value@),
{
    let n = value.unicode_len();
    let mut out = String::new();
    let mut i: usize = 0;
    proof {
        assert(out@ =~= sanitize_title_spec(value@).take(0));
    }
    while i < n
        invariant
            n == value@.len(),
            0 <= i <= n,
            out@ == sanitize_title_spec(value@).take(i as int),
        decreases n - i,
    {
        let c = value.get_char(i);
        if c == '/' {
            out.append("-");
            proof {
                reveal_strlit("-");
                assert("-"@ =~= seq!['-']);
            }
        } else {
            let piece = value.substring_char(i, i + 1);
            out.append(piece);
            proof {
                assert(piece@ =~= seq![value@[i as int]]);
            }
        }
        i = i + 1;
        proof {
            assert(out@ =~= sanitize_title_spec(value@).take(i as int));
        }
    }
    proof {
        assert(sanitize_title_spec(value@).take(n as int) =~= sanitize_title_spec(value@));
    }
    out
}

/// Format one field's value by its rule.
pub fn format_field(f: FieldName, value: &str) -> (r: String)
    ensures
        r@ == format_field_spec(f, value@),
{
    match f {
        FieldName::Track => pad_track(value),
        FieldName::Title => sanitize_title(value),
        _ => value.to_owned(),
    }
}

/// Render the compiled template against one file's tags, appending the
/// extension. Fails with the first referenced field that is absent; succeeds
/// exactly when every referenced field is present.
pub fn render(tokens: &Vec<FormatToken>, tags: &MediaTags, extension: &str) -> (r: Result<
    String,
    RenderError,
>)
    ensures
        match r {
            Ok(name) => render_spec(tokens.deep_view(), tags@, extension@) == Ok::<
                Seq<char>,
                FieldName,
            >(name@),
            Err(RenderError::MissingField(f)) => render_spec(tokens.deep_view(), tags@, extension@)
                == Err::<Seq<char>, FieldName>(f),
        },
        r is Ok <==> all_fields_present(tokens.deep_view(), tags@),
{
    let ghost toks = tokens.deep_view();
    proof {
        lemma_render_ok_iff(toks, tags@);
    }
    let mut out = String::new();
    let mut idx: usize = 0;
    proof {
        assert(toks.take(0) =~= Seq::<TokenView>::empty());
    }
    while idx < tokens.len()
        invariant
            toks == tokens.deep_view(),
            0 <= idx <= tokens.len(),
            render_tokens_spec(toks.take(idx as int), tags@) == Ok::<Seq<char>, FieldName>(out@),
        decreases tokens.len() - idx,
    {
        let token = &tokens[idx];
        proof {
            assert(token@ == toks[idx as int]);
            assert(toks.take(idx as int + 1).drop_last() =~= toks.take(idx as int));
            assert(toks.take(idx as int + 1).last() == toks[idx as int]);
        }
        match token {
            FormatToken::Literal(text) => {
                out.append(text.as_str());
            },
            FormatToken::Field(f) => {
                match tags.get(*f) {
                    None => {
                        proof {
                            lemma_render_error_persists(toks, tags@, idx as int + 1);
                        }
                        return Err(RenderError::MissingField(*f));
                    },
                    Some(value) => {
                        let formatted = format_field(*f, value.as_str());
                        out.append(formatted.as_str());
                    },
                }
            },
        }
        idx = idx + 1;
    }
    proof {
        assert(toks.take(tokens.len() as int) =~= toks);
    }
    out.append(".");
    out.append(extension);
    proof {
        reveal_strlit(".");
        assert("."@ =~= seq!['.']);
        let base = (render_tokens_spec(toks, tags@))->Ok_0;
        assert(out@ =~= base + seq!['.'] + extension@);
    }
    Ok(out)
}

/// Law: rendering is deterministic — the rendered filename is a function of
/// the token sequence, the tag mapping and the extension alone, so equal
/// inputs always yield the same name.
pub proof fn lemma_render_deterministic(
    toks: Seq<TokenView>,
    tags: Map<FieldName, Seq<char>>,
    ext: Seq<char>,
    r1: Seq<char>,
    r2: Seq<char>,
)
    requires
        render_spec(toks, tags, ext) == Ok::<Seq<char>, FieldName>(r1),
        render_spec(toks, tags, ext) == Ok::<Seq<char>, FieldName>(r2),
    ensures
        r1 == r2,
{
}

/// Law: a one-character track value renders as exactly two characters, a
/// leading zero then the value; a value of two or more characters is never
/// re-padded.
pub proof fn lemma_track_padding(v: Seq<char>)
    ensures
        v.len() == 1 ==> pad_track_spec(v) == seq!['0'] + v && pad_track_spec(v).len() == 2,
        v.len() >= 2 ==> pad_track_spec(v) == v,
        format_field_spec(FieldName::Track, v) == pad_track_spec(v),
{
}

/// Law: a rendered title contains no `/` — each `/` becomes `-` and every
/// other character is kept in place — and no other field performs this
/// substitution: artist, year and album pass through unchanged, and the
/// track keeps all its characters after the optional leading zero.
pub proof fn lemma_title_sanitized(v: Seq<char>)
    ensures
        sanitize_title_spec(v).len() == v.len(),
        forall|i: int| 0 <= i < v.len() ==> sanitize_title_spec(v)[i] != '/',
        forall|i: int|
            0 <= i < v.len() ==> sanitize_title_spec(v)[i] == (if v[i] == '/' {
                '-'
            } else {
                v[i]
            }),
        format_field_spec(FieldName::Artist, v) == v,
        format_field_spec(FieldName::Year, v) == v,
        format_field_spec(FieldName::Album, v) == v,
        v.len() < 2 ==> format_field_spec(FieldName::Track, v) == seq!['0'] + v,
        v.len() >= 2 ==> format_field_spec(FieldName::Track, v) == v,
{
}

/// The whole base filename when every referenced field is present: each
/// token's fragment, concatenated in token order.
pub open spec fn fragments_concat(toks: Seq<TokenView>, tags: Map<FieldName, Seq<char>>) -> Seq<
    char,
>
    decreases toks.len(),
{
    if toks.len() == 0 {
        Seq::<char>::empty()
    } else {
        fragments_concat(toks.drop_last(), tags) + rendered_fragment(toks.last(), tags)
    }
}

/// Law: when every referenced field is present, rendering succeeds and the
/// base filename is exactly the concatenation of the per-token fragments —
/// literal text verbatim, field values formatted — in token order.
pub proof fn lemma_render_all_present(toks: Seq<TokenView>, tags: Map<FieldName, Seq<char>>)
    requires
        all_fields_present(toks, tags),
    ensures
        render_tokens_spec(toks, tags) == Ok::<Seq<char>, FieldName>(fragments_concat(toks, tags)),
    decreases toks.len(),
{
    if toks.len() == 0 {
    } else {
        assert(forall|i: int| 0 <= i < toks.len() - 1 ==> toks.drop_last()[i] == toks[i]);
        assert(all_fields_present(toks.drop_last(), tags));
        lemma_render_all_present(toks.drop_last(), tags);
        assert(toks.last() == toks[toks.len() - 1]);
    }
}

/// Law (round trip): compile a template, render it against tags holding
/// every referenced field — the output is the fragments of the template's
/// tokens, verbatim literals interleaved with formatted field values at the
/// positions where they occurred, followed by a dot and the extension.
pub proof fn lemma_compile_render_round_trip(
    template: Seq<char>,
    tags: Map<FieldName, Seq<char>>,
    ext: Seq<char>,
)
    requires
        all_fields_present(crate::format::compile_spec(template), tags),
    ensures
        render_spec(crate::format::compile_spec(template), tags, ext) == Ok::<Seq<char>, FieldName>(
            fragments_concat(crate::format::compile_spec(template), tags) + seq!['.'] + ext,
        ),
{
    lemma_render_all_present(crate::format::compile_spec(template), tags);
}

} // verus!
