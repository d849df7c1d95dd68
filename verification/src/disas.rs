//! The instruction-format strings of the disassembler: a format such as `"addi {rd}, {rs1},
//! {imm:#x}"` is split into literal text and `{field}` / `{field:spec}` placeholders.
use vstd::prelude::*;
use vstd::string::StringSliceAdditionalSpecFns;

verus! {

pub const LBRACE: u8 = 0x7B;
pub const RBRACE: u8 = 0x7D;
pub const COLON: u8 = 0x3A;

/// A piece of a format string: literal text, or a placeholder with a field name and an
/// optional format spec.
pub struct FormatToken {
    pub text: Vec<u8>,
    pub field: Option<(Vec<u8>, Option<Vec<u8>>)>,
}

/// Abstract format token.
pub struct TokenView {
    pub text: Seq<u8>,
    pub field: Option<(Seq<u8>, Option<Seq<u8>>)>,
}

impl View for FormatToken {
    type V = TokenView;

    open spec fn view(&self) -> TokenView {
        TokenView {
            text: self.text@,
            field: match &self.field {
                None => None,
                Some((n, f)) => Some((
                    n@,
                    match f {
                        None => None,
                        Some(v) => Some(v@),
                    },
                )),
            },
        }
    }
}

/// A literal-text token.
pub open spec fn text_token(t: Seq<u8>) -> TokenView {
    TokenView { text: t, field: None }
}

/// `s` with its colons removed.
pub open spec fn without_colons(s: Seq<u8>) -> Seq<u8>
    decreases s.len(),
{
    if s.len() == 0 {
        Seq::empty()
    } else if s.last() == COLON {
        without_colons(s.drop_last())
    } else {
        without_colons(s.drop_last()).push(s.last())
    }
}

/// The index of the first `}` at or after `j`, or the end of `s`.
pub open spec fn close_at(s: Seq<u8>, j: int) -> int
    decreases s.len() - j,
{
    if j >= s.len() {
        s.len() as int
    } else if s[j] == RBRACE {
        j
    } else {
        close_at(s, j + 1)
    }
}

/// The index of the first `:` or `}` at or after `j`, or the end of `s`.
pub open spec fn name_end(s: Seq<u8>, j: int) -> int
    decreases s.len() - j,
{
    if j >= s.len() {
        s.len() as int
    } else if s[j] == RBRACE || s[j] == COLON {
        j
    } else {
        name_end(s, j + 1)
    }
}

/// The placeholder whose text starts at `j` (just after its `{`): the name runs up to the first
/// colon; the spec is everything after it up to the closing brace, colons removed, and is
/// absent when that is empty.
pub open spec fn field_token(s: Seq<u8>, j: int) -> TokenView {
    let e = close_at(s, j);
    let c = name_end(s, j);
    let f = if c < e { without_colons(s.subrange(c + 1, e)) } else { Seq::empty() };
    TokenView { text: Seq::empty(), field: Some((s.subrange(j, c), if f.len() > 0 { Some(f) } else { None })) }
}

/// Tokenizing `s` from `i` on, with literal text `buf` pending and `toks` done: `{{` is a
/// literal `{`; `{` opens a placeholder that runs to the next `}` (or the end); anything else
/// is literal text. Pending text is emitted before a placeholder and at the end, where an
/// empty format also gives one empty text token.
pub open spec fn tokenize_from(s: Seq<u8>, i: int, buf: Seq<u8>, toks: Seq<TokenView>) -> Seq<TokenView>
    decreases s.len() + 1 - i,
{
    if i < 0 || i >= s.len() {
        if buf.len() > 0 || toks.len() == 0 {
            toks.push(text_token(buf))
        } else {
            toks
        }
    } else if s[i] == LBRACE {
        if i + 1 < s.len() && s[i + 1] == LBRACE {
            tokenize_from(s, i + 2, buf.push(LBRACE), toks)
        } else {
            let toks2 = if buf.len() > 0 { toks.push(text_token(buf)) } else { toks };
            proof {
                lemma_close_at_bounds(s, i + 1);
            }
            tokenize_from(s, close_at(s, i + 1) + 1, Seq::empty(), toks2.push(field_token(s, i + 1)))
        }
    } else {
        tokenize_from(s, i + 1, buf.push(s[i]), toks)
    }
}

/// The tokens of the format string `s`.
pub open spec fn tokens_of(s: Seq<u8>) -> Seq<TokenView> {
    tokenize_from(s, 0, Seq::empty(), Seq::empty())
}

/// A placeholder's name ends no later than its closing brace, and neither lies before its start.
pub proof fn lemma_close_at_bounds(s: Seq<u8>, j: int)
    requires
        0 <= j,
    ensures
        j <= close_at(s, j) || j > s.len(),
        close_at(s, j) <= s.len(),
        name_end(s, j) <= close_at(s, j),
        j <= s.len() ==> j <= name_end(s, j),
    decreases s.len() - j,
{
    if j < s.len() && s[j] != RBRACE {
        lemma_close_at_bounds(s, j + 1);
    }
}

/// Splits an instruction-format string into literal text and placeholders.
pub fn tokenize_format(fmt: &str) -> (r: Vec<FormatToken>)
    ensures
        r@.map_values(|t: FormatToken| t@) == tokens_of(fmt.spec_bytes()),
{
    let s = fmt.as_bytes();
    let len = s.len();
    let mut tokens: Vec<FormatToken> = Vec::new();
    let mut buf: Vec<u8> = Vec::new();
    let mut i: usize = 0;
    assert(tokens@.map_values(|t: FormatToken| t@) =~= Seq::<TokenView>::empty());
    assert(buf@ =~= Seq::<u8>::empty());
    while i < len
        invariant
            len == s@.len(),
            s@ == fmt.spec_bytes(),
            i <= len,
            tokenize_from(s@, i as int, buf@, tokens@.map_values(|t: FormatToken| t@)) == tokens_of(s@),
        decreases len - i,
    {
        let ch = s[i];
        let ghost tv0 = tokens@.map_values(|t: FormatToken| t@);
        let ghost b0 = buf@;
        let ghost i0 = i as int;
        if ch == LBRACE {
            if i + 1 < len && s[i + 1] == LBRACE {
                buf.push(LBRACE);
                i = i + 2;
                assert(tokenize_from(s@, i0, b0, tv0) == tokenize_from(s@, i as int, buf@, tv0));
                continue;
            }
            let ghost before = tokens@.map_values(|t: FormatToken| t@);
            let ghost pending = buf@;
            if buf.len() > 0 {
                let t = FormatToken { text: buf, field: None };
                tokens.push(t);
                buf = Vec::new();
                assert(tokens@.map_values(|t: FormatToken| t@) =~= before.push(text_token(pending)));
            }
            let ghost toks2 = tokens@.map_values(|t: FormatToken| t@);
            // The placeholder: name up to the first colon, spec after it, up to `}`.
            let j0 = i + 1;
            let mut name: Vec<u8> = Vec::new();
            let mut spec: Option<Vec<u8>> = None;
            let mut in_fmt = false;
            let mut k = j0;
            proof {
                lemma_close_at_bounds(s@, j0 as int);
            }
            while k < len && s[k] != RBRACE
                invariant
                    len == s@.len(),
                    j0 <= k <= len,
                    j0 <= len,
                    j0 <= name_end(s@, j0 as int) <= close_at(s@, j0 as int) <= len,
                    close_at(s@, j0 as int) == close_at(s@, k as int),
                    in_fmt == (name_end(s@, j0 as int) < k),
                    !in_fmt ==> name_end(s@, j0 as int) == name_end(s@, k as int),
                    name@ == s@.subrange(j0 as int, if in_fmt { name_end(s@, j0 as int) } else { k as int }),
                    match spec {
                        None => !in_fmt || without_colons(s@.subrange(name_end(s@, j0 as int) + 1, k as int)).len() == 0,
                        Some(v) => in_fmt && v@ == without_colons(s@.subrange(name_end(s@, j0 as int) + 1, k as int))
                            && v@.len() > 0,
                    },
                decreases len - k,
            {
                let c = s[k];
                let ghost c0 = name_end(s@, j0 as int);
                proof {
                    lemma_close_at_bounds(s@, k + 1);
                }
                if c == COLON {
                    if in_fmt {
                        proof {
                            assert(s@.subrange(c0 + 1, k + 1).drop_last() =~= s@.subrange(c0 + 1, k as int));
                            assert(s@.subrange(c0 + 1, k + 1).last() == COLON);
                        }
                    } else {
                        proof {
                            assert(c0 == k);
                            assert(s@.subrange(c0 + 1, k + 1) =~= Seq::<u8>::empty());
                        }
                    }
                    in_fmt = true;
                } else if in_fmt {
                    proof {
                        assert(s@.subrange(c0 + 1, k + 1).drop_last() =~= s@.subrange(c0 + 1, k as int));
                        assert(s@.subrange(c0 + 1, k + 1).last() == c);
                    }
                    match spec {
                        Some(mut v) => {
                            v.push(c);
                            spec = Some(v);
                        },
                        None => {
                            let mut v = Vec::new();
                            v.push(c);
                            spec = Some(v);
                            proof {
                                assert(v@ =~= seq![c]);
                                assert(without_colons(s@.subrange(c0 + 1, k as int)) =~= Seq::<u8>::empty());
                            }
                        },
                    }
                } else {
                    name.push(c);
                    proof {
                        assert(name@ =~= s@.subrange(j0 as int, k + 1));
                        assert(name_end(s@, k as int) == name_end(s@, k + 1));
                    }
                }
                k = k + 1;
            }
            proof {
                let c0 = name_end(s@, j0 as int);
                if !in_fmt {
                    assert(name@ =~= s@.subrange(j0 as int, c0));
                }
            }
            let t = FormatToken { text: Vec::new(), field: Some((name, spec)) };
            proof {
                assert(t@ == field_token(s@, j0 as int));
            }
            tokens.push(t);
            assert(tokens@.map_values(|t: FormatToken| t@) =~= toks2.push(field_token(s@, j0 as int)));
            i = if k < len { k + 1 } else { len };
            proof {
                assert(k as int == close_at(s@, j0 as int));
                assert(tokenize_from(s@, i0, b0, tv0) == tokenize_from(s@, k + 1, Seq::empty(), toks2.push(field_token(s@, j0 as int))));
                assert(tokenize_from(s@, i as int, Seq::empty(), toks2.push(field_token(s@, j0 as int))) == tokenize_from(s@, k + 1, Seq::empty(), toks2.push(field_token(s@, j0 as int))));
                assert(buf@ =~= Seq::<u8>::empty());
            }
        } else {
            buf.push(ch);
            i = i + 1;
            assert(tokenize_from(s@, i0, b0, tv0) == tokenize_from(s@, i as int, buf@, tv0));
        }
    }
    if buf.len() > 0 || tokens.len() == 0 {
        let ghost before = tokens@.map_values(|t: FormatToken| t@);
        let ghost pending = buf@;
        let t = FormatToken { text: buf, field: None };
        tokens.push(t);
        assert(tokens@.map_values(|t: FormatToken| t@) =~= before.push(text_token(pending)));
    }
    tokens
}

/// The piece of a `format!` string that a token stands for: its text, `{}` for a plain
/// placeholder, `{:spec}` for one with a spec.
pub open spec fn format_piece(t: TokenView) -> Seq<u8> {
    match t.field {
        None => t.text,
        Some((_, None)) => seq![LBRACE, RBRACE],
        Some((_, Some(f))) => seq![LBRACE, COLON] + f + seq![RBRACE],
    }
}

/// The `format!` string rebuilt from tokens: their pieces in order.
pub open spec fn rebuilt_format(toks: Seq<TokenView>) -> Seq<u8>
    decreases toks.len(),
{
    if toks.len() == 0 {
        Seq::empty()
    } else {
        rebuilt_format(toks.drop_last()) + format_piece(toks.last())
    }
}

/// Appends all of `b` to `v`.
fn extend(v: &mut Vec<u8>, b: &Vec<u8>)
    ensures
        final(v)@ == old(v)@ + b@,
{
    let mut k: usize = 0;
    while k < b.len()
        invariant
            k <= b@.len(),
            v@ == old(v)@ + b@.subrange(0, k as int),
        decreases b@.len() - k,
    {
        v.push(b[k]);
        k = k + 1;
        assert(v@ =~= old(v)@ + b@.subrange(0, k as int));
    }
    assert(b@.subrange(0, b@.len() as int) =~= b@);
}

/// The `format!` string for a tokenized instruction format, each placeholder replaced by
/// `{}` or `{:spec}`.
pub fn rebuild_format(tokens: &Vec<FormatToken>) -> (r: Vec<u8>)
    ensures
        r@ == rebuilt_format(tokens@.map_values(|t: FormatToken| t@)),
{
    let ghost tv = tokens@.map_values(|t: FormatToken| t@);
    let mut out: Vec<u8> = Vec::new();
    let mut k: usize = 0;
    while k < tokens.len()
        invariant
            k <= tokens@.len(),
            tv == tokens@.map_values(|t: FormatToken| t@),
            out@ == rebuilt_format(tv.subrange(0, k as int)),
        decreases tokens@.len() - k,
    {
        let t = &tokens[k];
        match &t.field {
            None => extend(&mut out, &t.text),
            Some((_, None)) => {
                out.push(LBRACE);
                out.push(RBRACE);
            },
            Some((_, Some(f))) => {
                out.push(LBRACE);
                out.push(COLON);
                extend(&mut out, f);
                out.push(RBRACE);
            },
        }
        proof {
            assert(tv.subrange(0, k + 1).drop_last() =~= tv.subrange(0, k as int));
            assert(tv.subrange(0, k + 1).last() == tv[k as int]);
            assert(out@ =~= rebuilt_format(tv.subrange(0, k as int)) + format_piece(tv[k as int]));
        }
        k = k + 1;
    }
    assert(tv.subrange(0, tokens@.len() as int) =~= tv);
    out
}

/// Whether `a` and `b` hold the same bytes.
fn bytes_eq(a: &[u8], b: &[u8]) -> (r: bool)
    ensures
        r == (a@ == b@),
{
    if a.len() != b.len() {
        return false;
    }
    let mut k: usize = 0;
    while k < a.len()
        invariant
            a@.len() == b@.len(),
            k <= a@.len(),
            forall|t: int| 0 <= t < k ==> a@[t] == b@[t],
        decreases a@.len() - k,
    {
        if a[k] != b[k] {
            return false;
        }
        k = k + 1;
    }
    assert(a@ =~= b@);
    true
}

/// The field names that name registers.
pub open spec fn register_names() -> Set<Seq<u8>> {
    set!["rd".spec_bytes(), "rs1".spec_bytes(), "rs2".spec_bytes(), "uimm".spec_bytes()]
}

/// Whether a field name names a register.
pub fn is_register_name(name: &str) -> (r: bool)
    ensures
        r == register_names().contains(name.spec_bytes()),
{
    let b = name.as_bytes();
    bytes_eq(b, "rd".as_bytes()) || bytes_eq(b, "rs1".as_bytes()) || bytes_eq(b, "rs2".as_bytes())
        || bytes_eq(b, "uimm".as_bytes())
}

} // verus!
