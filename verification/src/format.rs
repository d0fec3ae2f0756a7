//! Template compiler: turn a template string into an ordered token sequence.
//!
//! A template is split on single space characters; empty pieces are dropped;
//! each remaining word becomes a `Field` token when its last character is one
//! of the reserved letters (`n` track, `t` title, `a` artist, `y` year,
//! `b` album), and a `Literal` token otherwise. Compilation never fails:
//! unrecognized words degrade to literals.

use vstd::prelude::*;

use crate::fields::FieldName;

verus! {

/// One parsed unit of a compiled template: literal text or a field reference.
pub enum FormatToken {
    Literal(String),
    Field(FieldName),
}

/// The mathematical form of a token.
pub ghost enum TokenView {
    Literal(Seq<char>),
    Field(FieldName),
}

impl View for FormatToken {
    type V = TokenView;

    open spec fn view(&self) -> TokenView {
        match self {
            FormatToken::Literal(s) => TokenView::Literal(s@),
            FormatToken::Field(f) => TokenView::Field(*f),
        }
    }
}

impl DeepView for FormatToken {
    type V = TokenView;

    open spec fn deep_view(&self) -> TokenView {
        self.view()
    }
}

/// How one non-empty word of the template is classified: a field reference
/// when it ends in a reserved letter, literal text otherwise.
pub open spec fn classify_spec(w: Seq<char>) -> TokenView {
    if w.len() > 0 && w.last() == 'n' {
        TokenView::Field(FieldName::Track)
    } else if w.len() > 0 && w.last() == 't' {
        TokenView::Field(FieldName::Title)
    } else if w.len() > 0 && w.last() == 'a' {
        TokenView::Field(FieldName::Artist)
    } else if w.len() > 0 && w.last() == 'y' {
        TokenView::Field(FieldName::Year)
    } else if w.len() > 0 && w.last() == 'b' {
        TokenView::Field(FieldName::Album)
    } else {
        TokenView::Literal(w)
    }
}

/// The pieces of `s` between space characters, in order, empty pieces kept:
/// splitting on `' '` always yields one more piece than there are spaces.
pub open spec fn split_words(s: Seq<char>) -> Seq<Seq<char>>
    decreases s.len(),
{
    if s.len() == 0 {
        seq![Seq::<char>::empty()]
    } else if s[0] == ' ' {
        seq![Seq::<char>::empty()] + split_words(s.skip(1))
    } else {
        let rest = split_words(s.skip(1));
        seq![seq![s[0]] + rest[0]] + rest.skip(1)
    }
}

/// Classify every non-empty word, dropping the empty ones.
pub open spec fn tokens_of_words(ws: Seq<Seq<char>>) -> Seq<TokenView>
    decreases ws.len(),
{
    if ws.len() == 0 {
        Seq::<TokenView>::empty()
    } else {
        let rest = tokens_of_words(ws.drop_last());
        if ws.last().len() == 0 {
            rest
        } else {
            rest.push(classify_spec(ws.last()))
        }
    }
}

/// What compiling a template yields: split on spaces, drop empty pieces,
/// classify each word.
pub open spec fn compile_spec(s: Seq<char>) -> Seq<TokenView> {
    tokens_of_words(split_words(s))
}

proof fn lemma_tokens_of_words_concat(a: Seq<Seq<char>>, b: Seq<Seq<char>>)
    ensures
        tokens_of_words(a + b) == tokens_of_words(a) + tokens_of_words(b),
    decreases b.len(),
{
    if b.len() == 0 {
        assert(a + b =~= a);
        assert(tokens_of_words(b) == Seq::<TokenView>::empty());
        assert(tokens_of_words(a) + tokens_of_words(b) =~= tokens_of_words(a));
    } else {
        lemma_tokens_of_words_concat(a, b.drop_last());
        assert((a + b).drop_last() =~= a + b.drop_last());
        assert((a + b).last() == b.last());
        if b.last().len() == 0 {
            assert(tokens_of_words(a + b) == tokens_of_words(a) + tokens_of_words(b.drop_last()));
        }
        assert(tokens_of_words(a) + tokens_of_words(b) =~= tokens_of_words(a + b));
    }
}

/// For a prefix of `s` that reaches, without a space, either a space at `k`
/// or the end of `s`: that prefix is the first word of the split.
proof fn lemma_split_word_prefix(s: Seq<char>, k: int)
    requires
        0 <= k <= s.len(),
        forall|m: int| 0 <= m < k ==> s[m] != ' ',
        k == s.len() || s[k] == ' ',
    ensures
        k == s.len() ==> split_words(s) == seq![s],
        k < s.len() ==> split_words(s) == seq![s.take(k)] + split_words(s.skip(k + 1)),
    decreases k,
{
    if k == 0 {
        if k == s.len() {
            assert(s =~= Seq::<char>::empty());
            assert(split_words(s) == seq![Seq::<char>::empty()]);
            assert(split_words(s) =~= seq![s]);
        } else {
            assert(s[0] == ' ');
            assert(s.take(0) =~= Seq::<char>::empty());
            assert(split_words(s) == seq![Seq::<char>::empty()] + split_words(s.skip(1)));
            assert(split_words(s) =~= seq![s.take(0)] + split_words(s.skip(1)));
        }
    } else {
        assert(s[0] != ' ');
        let t = s.skip(1);
        assert(forall|m: int| 0 <= m < k - 1 ==> t[m] == s[m + 1] && t[m] != ' ');
        lemma_split_word_prefix(t, k - 1);
        let rest = split_words(t);
        if k == s.len() {
            assert(rest == seq![t]);
            assert(seq![s[0]] + rest[0] =~= s);
            assert(rest.skip(1) =~= Seq::<Seq<char>>::empty());
            assert(split_words(s) =~= seq![s]);
        } else {
            assert(t[k - 1] == s[k]);
            assert(rest == seq![t.take(k - 1)] + split_words(t.skip(k)));
            assert(rest[0] == t.take(k - 1));
            assert(seq![s[0]] + t.take(k - 1) =~= s.take(k));
            assert(rest.skip(1) =~= split_words(t.skip(k)));
            assert(t.skip(k) =~= s.skip(k + 1));
            assert(split_words(s) =~= seq![s.take(k)] + split_words(s.skip(k + 1)));
        }
    }
}

/// A leading space changes nothing: the empty piece before it is dropped.
proof fn lemma_compile_space_step(s: Seq<char>)
    requires
        s.len() > 0,
        s[0] == ' ',
    ensures
        compile_spec(s) == compile_spec(s.skip(1)),
{
    assert(split_words(s) == seq![Seq::<char>::empty()] + split_words(s.skip(1)));
    lemma_tokens_of_words_concat(seq![Seq::<char>::empty()], split_words(s.skip(1)));
    assert(tokens_of_words(seq![Seq::<char>::empty()].drop_last()) == Seq::<TokenView>::empty());
    assert(tokens_of_words(seq![Seq::<char>::empty()]) == Seq::<TokenView>::empty());
    assert(compile_spec(s) =~= compile_spec(s.skip(1)));
}

/// A leading word (non-empty, space-free, ending at a space or at the end of
/// the template) contributes exactly one token, in front of the rest.
proof fn lemma_compile_word_step(s: Seq<char>, k: int)
    requires
        1 <= k <= s.len(),
        forall|m: int| 0 <= m < k ==> s[m] != ' ',
        k == s.len() || s[k] == ' ',
    ensures
        compile_spec(s) == seq![classify_spec(s.take(k))] + compile_spec(s.skip(k)),
{
    lemma_split_word_prefix(s, k);
    if k == s.len() {
        assert(split_words(s) == seq![s]);
        assert(seq![s].drop_last() =~= Seq::<Seq<char>>::empty());
        assert(tokens_of_words(Seq::<Seq<char>>::empty()) == Seq::<TokenView>::empty());
        assert(tokens_of_words(seq![s]) =~= seq![classify_spec(s)]);
        assert(s.skip(k) =~= Seq::<char>::empty());
        assert(split_words(s.skip(k)) == seq![Seq::<char>::empty()]);
        assert(tokens_of_words(seq![Seq::<char>::empty()].drop_last())
            == Seq::<TokenView>::empty());
        assert(compile_spec(s.skip(k)) == Seq::<TokenView>::empty());
        assert(s.take(k) =~= s);
        assert(compile_spec(s) =~= seq![classify_spec(s.take(k))] + compile_spec(s.skip(k)));
    } else {
        assert(split_words(s) == seq![s.take(k)] + split_words(s.skip(k + 1)));
        lemma_tokens_of_words_concat(seq![s.take(k)], split_words(s.skip(k + 1)));
        assert(seq![s.take(k)].drop_last() =~= Seq::<Seq<char>>::empty());
        assert(tokens_of_words(Seq::<Seq<char>>::empty()) == Seq::<TokenView>::empty());
        assert(s.take(k).len() == k);
        assert(tokens_of_words(seq![s.take(k)]) =~= seq![classify_spec(s.take(k))]);
        let u = s.skip(k);
        assert(u[0] == s[k]);
        lemma_compile_space_step(u);
        assert(u.skip(1) =~= s.skip(k + 1));
        assert(compile_spec(s) =~= seq![classify_spec(s.take(k))] + compile_spec(s.skip(k)));
    }
}

/// Compiling an empty template, or one made of spaces alone, yields no tokens.
pub proof fn lemma_compile_whitespace_only(s: Seq<char>)
    requires
        forall|i: int| 0 <= i < s.len() ==> s[i] == ' ',
    ensures
        compile_spec(s) == Seq::<TokenView>::empty(),
    decreases s.len(),
{
    if s.len() == 0 {
        assert(split_words(s) == seq![Seq::<char>::empty()]);
        assert(tokens_of_words(seq![Seq::<char>::empty()].drop_last())
            == Seq::<TokenView>::empty());
        assert(compile_spec(s) == Seq::<TokenView>::empty());
    } else {
        lemma_compile_space_step(s);
        lemma_compile_whitespace_only(s.skip(1));
    }
}

/// Classify one non-empty word of the template.
fn classify_token(word: &str) -> (t: FormatToken)
    requires
        word@.len() >= 1,
    ensures
        t@ == classify_spec(word@),
{
    let n = word.unicode_len();
    let last = word.get_char(n - 1);
    if last == 'n' {
        FormatToken::Field(FieldName::Track)
    } else if last == 't' {
        FormatToken::Field(FieldName::Title)
    } else if last == 'a' {
        FormatToken::Field(FieldName::Artist)
    } else if last == 'y' {
        FormatToken::Field(FieldName::Year)
    } else if last == 'b' {
        FormatToken::Field(FieldName::Album)
    } else {
        FormatToken::Literal(word.to_owned())
    }
}

/// Compile a template string into its token sequence. Never fails: words that
/// name no field come through as literals, and empty pieces are dropped.
pub fn parse_format(format: &str) -> (tokens: Vec<FormatToken>)
    ensures
        tokens.deep_view() == compile_spec(format@),
{
    let ghost s = format@;
    let n = format.unicode_len();
    let mut tokens: Vec<FormatToken> = Vec::new();
    let mut i: usize = 0;
    proof {
        assert(tokens.deep_view() =~= Seq::<TokenView>::empty());
        assert(s.skip(0) =~= s);
        assert(Seq::<TokenView>::empty() + compile_spec(s) =~= compile_spec(s));
    }
    while i < n
        invariant
            n == s.len(),
            format@ == s,
            0 <= i <= n,
            compile_spec(s) == tokens.deep_view() + compile_spec(s.skip(i as int)),
        decreases n - i,
    {
        if format.get_char(i) == ' ' {
            proof {
                lemma_compile_space_step(s.skip(i as int));
                assert(s.skip(i as int).skip(1) =~= s.skip(i as int + 1));
            }
            i = i + 1;
        } else {
            let start = i;
            let mut j: usize = i;
            while j < n && format.get_char(j) != ' '
                invariant
                    n == s.len(),
                    format@ == s,
                    start <= j <= n,
                    forall|m: int| start <= m < j ==> s[m] != ' ',
                decreases n - j,
            {
                j = j + 1;
            }
            assert(j > start);
            let word = format.substring_char(start, j);
            let token = classify_token(word);
            let ghost toks_before = tokens.deep_view();
            proof {
                let t = s.skip(start as int);
                let k = j - start;
                assert(forall|m: int| 0 <= m < k ==> t[m] == s[m + start] && t[m] != ' ');
                if j < n {
                    assert(t[k as int] == s[j as int]);
                }
                lemma_compile_word_step(t, k as int);
                assert(t.take(k as int) =~= word@);
                assert(t.skip(k as int) =~= s.skip(j as int));
            }
            tokens.push(token);
            proof {
                assert(tokens.deep_view() =~= toks_before.push(token@));
                assert(toks_before.push(token@) + compile_spec(s.skip(j as int))
                    =~= toks_before + (seq![token@] + compile_spec(s.skip(j as int))));
            }
            i = j;
        }
    }
    proof {
        assert(s.skip(n as int) =~= Seq::<char>::empty());
        lemma_compile_whitespace_only(s.skip(n as int));
        assert(tokens.deep_view() + Seq::<TokenView>::empty() =~= tokens.deep_view());
    }
    tokens
}

} // verus!
