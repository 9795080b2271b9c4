use vstd::prelude::*;
use crate::metadata::{valid_header_value, valid_header_value_char};
use crate::text::is_digit_char;

verus! {

/// The decimal digits of a token, in order, with everything else removed.
pub open spec fn digits_of(s: Seq<char>) -> Seq<char>
    decreases s.len(),
{
    if s.len() == 0 {
        Seq::empty()
    } else {
        let rest = digits_of(s.drop_last());
        if is_digit_char(s.last()) {
            rest.push(s.last())
        } else {
            rest
        }
    }
}

/// The fixed set of numbered version tags the daemon understands.
pub open spec fn supported_tag(t: Seq<char>) -> bool {
    ||| t == "27"@
    ||| t == "33"@
    ||| t == "34"@
    ||| t == "35"@
    ||| t == "36"@
    ||| t == "37"@
    ||| t == "38"@
    ||| t == "39"@
}

/// A tag with the fixed prefix in front, as it goes on the wire.
pub open spec fn normalized_tag(t: Seq<char>) -> Seq<char> {
    "py"@ + t
}

/// A raw comma-separated entry survives when it is non-empty and its
/// digits form a numbered tag, or it spells the stub-file tag — bare
/// or already in its wire form, so the parser accepts its own output.
pub open spec fn kept_token(t: Seq<char>) -> bool {
    t.len() > 0 && (supported_tag(digits_of(t)) || t == "PYI"@ || t == "pyPYI"@)
}

/// The wire form of a surviving entry: the bare stub-file tag goes by
/// its own letters behind the prefix, its wire form stays as it is,
/// and a numbered tag goes by its digits behind the prefix.
pub open spec fn wire_tag(t: Seq<char>) -> Seq<char> {
    if t == "PYI"@ {
        normalized_tag(t)
    } else if t == "pyPYI"@ {
        t
    } else {
        normalized_tag(digits_of(t))
    }
}

/// The entries of a string split on commas; splitting never yields an
/// empty list (an empty string is one empty entry).
pub open spec fn split_commas(s: Seq<char>) -> Seq<Seq<char>>
    decreases s.len(),
{
    if s.len() == 0 {
        seq![Seq::<char>::empty()]
    } else {
        let rest = split_commas(s.drop_last());
        if s.last() == ',' {
            rest.push(Seq::empty())
        } else {
            rest.drop_last().push(rest.last().push(s.last()))
        }
    }
}

/// The normalized forms of the surviving entries, in their original order.
pub open spec fn kept_tags(tokens: Seq<Seq<char>>) -> Seq<Seq<char>>
    decreases tokens.len(),
{
    if tokens.len() == 0 {
        Seq::empty()
    } else {
        let rest = kept_tags(tokens.drop_last());
        let t = tokens.last();
        if kept_token(t) {
            rest.push(wire_tag(t))
        } else {
            rest
        }
    }
}

/// Parts joined with a single comma between neighbours.
pub open spec fn comma_joined(parts: Seq<Seq<char>>) -> Seq<char>
    decreases parts.len(),
{
    if parts.len() == 0 {
        Seq::empty()
    } else if parts.len() == 1 {
        parts[0]
    } else {
        comma_joined(parts.drop_last()) + seq![','] + parts.last()
    }
}

/// What the version option turns into: split on commas, drop empty
/// entries, keep only entries whose digits are a numbered tag or that
/// spell the stub-file tag (bare or in wire form), put each in its
/// wire form, and join with commas. Every output re-parses to itself.
pub open spec fn parse_model(s: Seq<char>) -> Seq<char> {
    comma_joined(kept_tags(split_commas(s)))
}

pub proof fn lemma_split_commas_nonempty(s: Seq<char>)
    ensures
        split_commas(s).len() >= 1,
    decreases s.len(),
{
    if s.len() > 0 {
        lemma_split_commas_nonempty(s.drop_last());
    }
}

/// When no comma-separated entry survives the filter, the result is empty.
pub proof fn lemma_all_invalid_yields_empty(s: Seq<char>)
    requires
        forall|k: int| 0 <= k < split_commas(s).len() ==> !kept_token(#[trigger] split_commas(s)[k]),
    ensures
        parse_model(s) == Seq::<char>::empty(),
{
    lemma_kept_tags_empty(split_commas(s));
}

pub proof fn lemma_kept_tags_empty(tokens: Seq<Seq<char>>)
    requires
        forall|k: int| 0 <= k < tokens.len() ==> !kept_token(#[trigger] tokens[k]),
    ensures
        kept_tags(tokens).len() == 0,
        comma_joined(kept_tags(tokens)) == Seq::<char>::empty(),
    decreases tokens.len(),
{
    if tokens.len() > 0 {
        assert(forall|k: int|
            0 <= k < tokens.drop_last().len() ==> tokens.drop_last()[k] == tokens[k]);
        lemma_kept_tags_empty(tokens.drop_last());
        assert(!kept_token(tokens.last()));
    }
}

/// Folding one more raw entry into an already-joined prefix.
proof fn lemma_join_step(toks: Seq<Seq<char>>, joined: Seq<char>)
    requires
        toks.len() >= 1,
        joined == comma_joined(kept_tags(toks.drop_last())),
    ensures
        !kept_token(toks.last()) ==> comma_joined(kept_tags(toks)) == joined,
        kept_token(toks.last()) && kept_tags(toks.drop_last()).len() == 0 ==> comma_joined(
            kept_tags(toks),
        ) == wire_tag(toks.last()),
        kept_token(toks.last()) && kept_tags(toks.drop_last()).len() > 0 ==> comma_joined(
            kept_tags(toks),
        ) == joined + seq![','] + wire_tag(toks.last()),
        (kept_tags(toks).len() > 0) == (kept_tags(toks.drop_last()).len() > 0 || kept_token(
            toks.last(),
        )),
{
    let x = kept_tags(toks.drop_last());
    let t = toks.last();
    if kept_token(t) {
        let v = wire_tag(t);
        assert(kept_tags(toks) == x.push(v));
        if x.len() == 0 {
            assert(x.push(v) =~= seq![v]);
            assert(comma_joined(seq![v]) == seq![v][0]);
        } else {
            assert((x.push(v)).drop_last() =~= x);
            assert((x.push(v)).len() > 1);
            assert(comma_joined(x.push(v)) == comma_joined(x) + seq![','] + v);
        }
    }
}

proof fn lemma_valid_value_concat(a: Seq<char>, b: Seq<char>)
    requires
        valid_header_value(a),
        valid_header_value(b),
    ensures
        valid_header_value(a + b),
{
    assert forall|i: int| 0 <= i < (a + b).len() implies valid_header_value_char(
        #[trigger] (a + b)[i],
    ) by {
        if i < a.len() {
            assert((a + b)[i] == a[i]);
        } else {
            assert((a + b)[i] == b[i - a.len()]);
        }
    }
}

proof fn lemma_valid_value_push(s: Seq<char>, c: char)
    requires
        valid_header_value(s),
        valid_header_value_char(c),
    ensures
        valid_header_value(s.push(c)),
{
    assert forall|i: int| 0 <= i < s.push(c).len() implies valid_header_value_char(
        #[trigger] s.push(c)[i],
    ) by {
        if i < s.len() {
            assert(s.push(c)[i] == s[i]);
        } else {
            assert(s.push(c)[i] == c);
        }
    }
}

proof fn lemma_digits_of_valid(s: Seq<char>)
    ensures
        valid_header_value(digits_of(s)),
    decreases s.len(),
{
    if s.len() > 0 {
        lemma_digits_of_valid(s.drop_last());
        if is_digit_char(s.last()) {
            lemma_valid_value_push(digits_of(s.drop_last()), s.last());
        }
    }
}

proof fn lemma_wire_tag_valid(t: Seq<char>)
    ensures
        valid_header_value(wire_tag(t)),
{
    reveal_strlit("py");
    assert(valid_header_value("py"@));
    if t == "PYI"@ {
        reveal_strlit("PYI");
        assert(valid_header_value("PYI"@));
        lemma_valid_value_concat("py"@, t);
    } else if t == "pyPYI"@ {
        reveal_strlit("pyPYI");
        assert(valid_header_value("pyPYI"@));
    } else {
        lemma_digits_of_valid(t);
        lemma_valid_value_concat("py"@, digits_of(t));
    }
}

proof fn lemma_kept_tags_valid(tokens: Seq<Seq<char>>)
    ensures
        forall|k: int| 0 <= k < kept_tags(tokens).len() ==> valid_header_value(
            #[trigger] kept_tags(tokens)[k],
        ),
    decreases tokens.len(),
{
    if tokens.len() > 0 {
        lemma_kept_tags_valid(tokens.drop_last());
        let rest = kept_tags(tokens.drop_last());
        let t = tokens.last();
        if kept_token(t) {
            lemma_wire_tag_valid(t);
            assert forall|k: int| 0 <= k < kept_tags(tokens).len() implies valid_header_value(
                #[trigger] kept_tags(tokens)[k],
            ) by {
                if k < rest.len() {
                    assert(kept_tags(tokens)[k] == rest[k]);
                } else {
                    assert(kept_tags(tokens)[k] == wire_tag(t));
                }
            }
        }
    }
}

proof fn lemma_comma_joined_valid(parts: Seq<Seq<char>>)
    requires
        forall|k: int| 0 <= k < parts.len() ==> valid_header_value(#[trigger] parts[k]),
    ensures
        valid_header_value(comma_joined(parts)),
    decreases parts.len(),
{
    if parts.len() == 0 {
        assert(valid_header_value(Seq::<char>::empty()));
    } else if parts.len() == 1 {
        assert(valid_header_value(parts[0]));
    } else {
        assert(forall|k: int|
            0 <= k < parts.drop_last().len() ==> parts.drop_last()[k] == parts[k]);
        lemma_comma_joined_valid(parts.drop_last());
        assert(valid_header_value(seq![','])) by {
            assert forall|i: int| 0 <= i < seq![','].len() implies valid_header_value_char(
                #[trigger] seq![','][i],
            ) by {
                assert(seq![','][i] == ',');
            }
        }
        lemma_valid_value_concat(comma_joined(parts.drop_last()), seq![',']);
        lemma_valid_value_concat(comma_joined(parts.drop_last()) + seq![','], parts.last());
    }
}

/// Whatever comes in, what comes out can stand as a header value.
pub proof fn lemma_parse_model_header_ready(s: Seq<char>)
    ensures
        valid_header_value(parse_model(s)),
{
    lemma_kept_tags_valid(split_commas(s));
    lemma_comma_joined_valid(kept_tags(split_commas(s)));
}

/// Decides whether a candidate's digits spell a numbered tag.
fn is_supported_digits(v: &Vec<char>) -> (b: bool)
    ensures
        b == supported_tag(v@),
{
    proof {
        reveal_strlit("27");
        reveal_strlit("33");
        reveal_strlit("34");
        reveal_strlit("35");
        reveal_strlit("36");
        reveal_strlit("37");
        reveal_strlit("38");
        reveal_strlit("39");
    }
    if v.len() != 2 {
        return false;
    }
    let c0 = v[0];
    let c1 = v[1];
    let b = (c0 == '2' && c1 == '7') || (c0 == '3' && (c1 == '3' || c1 == '4' || c1 == '5' || c1
        == '6' || c1 == '7' || c1 == '8' || c1 == '9'));
    proof {
        if b {
            if c0 == '2' {
                assert(v@ =~= "27"@);
            } else if c1 == '3' {
                assert(v@ =~= "33"@);
            } else if c1 == '4' {
                assert(v@ =~= "34"@);
            } else if c1 == '5' {
                assert(v@ =~= "35"@);
            } else if c1 == '6' {
                assert(v@ =~= "36"@);
            } else if c1 == '7' {
                assert(v@ =~= "37"@);
            } else if c1 == '8' {
                assert(v@ =~= "38"@);
            } else {
                assert(v@ =~= "39"@);
            }
        } else {
            assert(!supported_tag(v@)) by {
                if v@ == "27"@ {
                    assert(c0 == '2' && c1 == '7');
                }
                if v@ == "33"@ {
                    assert(c0 == '3' && c1 == '3');
                }
                if v@ == "34"@ {
                    assert(c0 == '3' && c1 == '4');
                }
                if v@ == "35"@ {
                    assert(c0 == '3' && c1 == '5');
                }
                if v@ == "36"@ {
                    assert(c0 == '3' && c1 == '6');
                }
                if v@ == "37"@ {
                    assert(c0 == '3' && c1 == '7');
                }
                if v@ == "38"@ {
                    assert(c0 == '3' && c1 == '8');
                }
                if v@ == "39"@ {
                    assert(c0 == '3' && c1 == '9');
                }
            }
        }
    }
    b
}

/// Appends one known digit character.
fn push_digit_char(s: &mut String, c: char)
    requires
        is_digit_char(c),
    ensures
        final(s)@ == old(s)@.push(c),
{
    if c == '0' {
        proof {
            reveal_strlit("0");
        }
        s.append("0");
    } else if c == '1' {
        proof {
            reveal_strlit("1");
        }
        s.append("1");
    } else if c == '2' {
        proof {
            reveal_strlit("2");
        }
        s.append("2");
    } else if c == '3' {
        proof {
            reveal_strlit("3");
        }
        s.append("3");
    } else if c == '4' {
        proof {
            reveal_strlit("4");
        }
        s.append("4");
    } else if c == '5' {
        proof {
            reveal_strlit("5");
        }
        s.append("5");
    } else if c == '6' {
        proof {
            reveal_strlit("6");
        }
        s.append("6");
    } else if c == '7' {
        proof {
            reveal_strlit("7");
        }
        s.append("7");
    } else if c == '8' {
        proof {
            reveal_strlit("8");
        }
        s.append("8");
    } else {
        proof {
            reveal_strlit("9");
        }
        s.append("9");
    }
    assert((*s)@ =~= old(s)@.push(c));
}

/// Decides whether a raw entry spells the stub-file tag outright.
fn is_stub_token(v: &Vec<char>) -> (b: bool)
    ensures
        b == (v@ == "PYI"@),
{
    proof {
        reveal_strlit("PYI");
    }
    let b = v.len() == 3 && v[0] == 'P' && v[1] == 'Y' && v[2] == 'I';
    proof {
        if b {
            assert(v@ =~= "PYI"@);
        }
    }
    b
}

/// Decides whether a raw entry already spells the stub-file tag's wire
/// form.
fn is_wire_stub_token(v: &Vec<char>) -> (b: bool)
    ensures
        b == (v@ == "pyPYI"@),
{
    proof {
        reveal_strlit("pyPYI");
    }
    let b = v.len() == 5 && v[0] == 'p' && v[1] == 'y' && v[2] == 'P' && v[3] == 'Y' && v[4]
        == 'I';
    proof {
        if b {
            assert(v@ =~= "pyPYI"@);
        }
    }
    b
}

/// Folds one completed raw entry into the joined output.
fn flush_token(out: &mut String, have: &mut bool, cur_raw: &Vec<char>, cur_digits: &Vec<char>)
    requires
        forall|k: int| 0 <= k < cur_digits@.len() ==> is_digit_char(#[trigger] cur_digits@[k]),
    ensures
        ({
            let kept = cur_raw@.len() > 0 && (supported_tag(cur_digits@) || cur_raw@ == "PYI"@
                || cur_raw@ == "pyPYI"@);
            let wire = if cur_raw@ == "PYI"@ {
                normalized_tag(cur_raw@)
            } else if cur_raw@ == "pyPYI"@ {
                cur_raw@
            } else {
                normalized_tag(cur_digits@)
            };
            &&& *final(have) == (*old(have) || kept)
            &&& (!kept ==> final(out)@ == old(out)@)
            &&& (kept && !*old(have) && old(out)@ == Seq::<char>::empty() ==> final(out)@ == wire)
            &&& (kept && *old(have) ==> final(out)@ == old(out)@ + seq![','] + wire)
        }),
{
    let stub = is_stub_token(cur_raw);
    let wire_stub = is_wire_stub_token(cur_raw);
    if cur_raw.len() > 0 && (is_supported_digits(cur_digits) || stub || wire_stub) {
        if *have {
            proof {
                reveal_strlit(",");
            }
            out.append(",");
            assert((*out)@ =~= old(out)@ + seq![',']);
        }
        let ghost before_py = (*out)@;
        if stub || wire_stub {
            proof {
                reveal_strlit("pyPYI");
                reveal_strlit("py");
                reveal_strlit("PYI");
            }
            out.append("pyPYI");
            proof {
                if stub {
                    assert((*out)@ =~= before_py + normalized_tag(cur_raw@));
                    assert(Seq::<char>::empty() + normalized_tag(cur_raw@) =~= normalized_tag(
                        cur_raw@,
                    ));
                } else {
                    assert((*out)@ =~= before_py + cur_raw@);
                    assert(Seq::<char>::empty() + cur_raw@ =~= cur_raw@);
                }
            }
        } else {
            proof {
                reveal_strlit("py");
            }
            out.append("py");
            let mut k: usize = 0;
            proof {
                assert(cur_digits@.subrange(0, 0) =~= Seq::<char>::empty());
                assert((*out)@ =~= before_py + "py"@ + cur_digits@.subrange(0, 0));
            }
            while k < cur_digits.len()
                invariant
                    k <= cur_digits@.len(),
                    (*out)@ == before_py + "py"@ + cur_digits@.subrange(0, k as int),
                    forall|j: int| 0 <= j < cur_digits@.len() ==> is_digit_char(
                        #[trigger] cur_digits@[j],
                    ),
                decreases cur_digits@.len() - k,
            {
                push_digit_char(out, cur_digits[k]);
                proof {
                    assert(cur_digits@.subrange(0, k as int + 1) =~= cur_digits@.subrange(
                        0,
                        k as int,
                    ).push(cur_digits@[k as int]));
                    assert((*out)@ =~= before_py + "py"@ + cur_digits@.subrange(
                        0,
                        k as int + 1,
                    ));
                }
                k = k + 1;
            }
            proof {
                assert(cur_digits@.subrange(0, cur_digits@.len() as int) =~= cur_digits@);
                assert((*out)@ =~= before_py + normalized_tag(cur_digits@));
                assert(Seq::<char>::empty() + normalized_tag(cur_digits@) =~= normalized_tag(
                    cur_digits@,
                ));
            }
        }
        *have = true;
    }
}

/// Turns a user-supplied, comma-separated list of version tags into
/// the wire form: unsupported entries are silently dropped, surviving
/// tags (numbered ones and the stub-file tag) are prefixed and
/// re-joined with commas. Never fails.
pub fn parse_py_versions(version_string: &str) -> (r: Result<String, String>)
    ensures
        r matches Ok(s) && s@ == parse_model(version_string@),
        (r matches Ok(s) ==> valid_header_value(s@)),
{
    proof {
        lemma_parse_model_header_ready(version_string@);
    }
    let n = version_string.unicode_len();
    let mut out = String::new();
    let mut have = false;
    let mut cur_raw: Vec<char> = Vec::new();
    let mut cur_digits: Vec<char> = Vec::new();
    let mut i: usize = 0;
    proof {
        assert(version_string@.subrange(0, 0) =~= Seq::<char>::empty());
    }
    while i < n
        invariant
            n == version_string@.len(),
            0 <= i <= n,
            ({
                let toks = split_commas(version_string@.subrange(0, i as int));
                &&& toks.len() >= 1
                &&& cur_raw@ == toks.last()
                &&& cur_digits@ == digits_of(toks.last())
                &&& have == (kept_tags(toks.drop_last()).len() > 0)
                &&& out@ == comma_joined(kept_tags(toks.drop_last()))
            }),
            forall|k: int| 0 <= k < cur_digits@.len() ==> is_digit_char(#[trigger] cur_digits@[k]),
        decreases n - i,
    {
        let ghost prefix = version_string@.subrange(0, i as int);
        let ghost toks = split_commas(prefix);
        proof {
            lemma_split_commas_nonempty(prefix);
        }
        let c = version_string.get_char(i);
        let ghost prefix2 = version_string@.subrange(0, i as int + 1);
        proof {
            assert(prefix2.drop_last() =~= prefix);
            assert(prefix2.last() == version_string@[i as int]);
        }
        if c == ',' {
            let ghost toks2 = split_commas(prefix2);
            let ghost out_before = out@;
            proof {
                assert(toks2 == toks.push(Seq::<char>::empty()));
                assert(toks2.drop_last() =~= toks);
                lemma_join_step(toks, out_before);
            }
            flush_token(&mut out, &mut have, &cur_raw, &cur_digits);
            proof {
                assert(kept_token(toks.last()) == (cur_raw@.len() > 0 && (supported_tag(
                    cur_digits@,
                ) || cur_raw@ == "PYI"@ || cur_raw@ == "pyPYI"@)));
                assert(wire_tag(toks.last()) == if cur_raw@ == "PYI"@ {
                    normalized_tag(cur_raw@)
                } else if cur_raw@ == "pyPYI"@ {
                    cur_raw@
                } else {
                    normalized_tag(cur_digits@)
                });
                assert(out@ == comma_joined(kept_tags(toks)));
                assert(digits_of(Seq::<char>::empty()) == Seq::<char>::empty());
            }
            cur_raw = Vec::new();
            cur_digits = Vec::new();
        } else {
            let ghost toks2 = split_commas(prefix2);
            proof {
                assert(toks2 == toks.drop_last().push(toks.last().push(
                    version_string@[i as int],
                )));
                assert(toks2.drop_last() =~= toks.drop_last());
                assert(toks2.last() == toks.last().push(version_string@[i as int]));
                assert(toks2.last().drop_last() =~= toks.last());
                assert(digits_of(toks2.last()) == if is_digit_char(c) {
                    digits_of(toks.last()).push(c)
                } else {
                    digits_of(toks.last())
                });
            }
            cur_raw.push(c);
            if '0' <= c && c <= '9' {
                cur_digits.push(c);
            }
        }
        i = i + 1;
    }
    let ghost toks = split_commas(version_string@);
    let ghost out_before = out@;
    proof {
        assert(version_string@.subrange(0, n as int) =~= version_string@);
        lemma_split_commas_nonempty(version_string@);
        lemma_join_step(toks, out_before);
    }
    flush_token(&mut out, &mut have, &cur_raw, &cur_digits);
    proof {
        assert(kept_token(toks.last()) == (cur_raw@.len() > 0 && (supported_tag(cur_digits@)
            || cur_raw@ == "PYI"@ || cur_raw@ == "pyPYI"@)));
        assert(wire_tag(toks.last()) == if cur_raw@ == "PYI"@ {
            normalized_tag(cur_raw@)
        } else if cur_raw@ == "pyPYI"@ {
            cur_raw@
        } else {
            normalized_tag(cur_digits@)
        });
        assert(out@ == comma_joined(kept_tags(toks)));
    }
    Ok(out)
}

} // verus!
