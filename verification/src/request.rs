//! Request-line parsing: one line is split on whitespace into
//! method, path and protocol version. Fewer than three tokens is a
//! malformed request line.

use vstd::prelude::*;
use vstd::string::StrSliceExecFns;
use vstd::string::StringExecFns;

verus! {

/// A parsed request line.
pub struct Request {
    pub method: String,
    pub path: String,
    pub version: String,
}

/// The characters treated as token separators in a request line.
pub open spec fn is_ws(c: char) -> bool {
    c == ' ' || c == '\t' || c == '\r' || c == '\n'
}

/// The whitespace-separated tokens of `s` from position `i` on, with `cur`
/// the token under construction just before position `i`.
pub open spec fn tokens_acc(s: Seq<char>, i: int, cur: Seq<char>) -> Seq<Seq<char>>
    decreases s.len() - i,
{
    if i < 0 || i >= s.len() {
        if cur.len() > 0 {
            seq![cur]
        } else {
            Seq::empty()
        }
    } else if is_ws(s[i]) {
        if cur.len() > 0 {
            seq![cur] + tokens_acc(s, i + 1, Seq::empty())
        } else {
            tokens_acc(s, i + 1, Seq::empty())
        }
    } else {
        tokens_acc(s, i + 1, cur.push(s[i]))
    }
}

/// The whitespace-separated tokens of `s`, in order, each maximal and
/// nonempty.
pub open spec fn tokens_of(s: Seq<char>) -> Seq<Seq<char>> {
    tokens_acc(s, 0, Seq::empty())
}

/// Splits `s` into its whitespace-separated tokens.
pub fn split_ws(s: &str) -> (toks: Vec<String>)
    ensures
        toks.deep_view() == tokens_of(s@),
{
    let n = s.unicode_len();
    let mut toks: Vec<String> = Vec::new();
    let mut cur_start: usize = 0;
    let mut in_tok: bool = false;
    let mut i: usize = 0;
    while i < n
        invariant
            n == s@.len(),
            i <= n,
            in_tok ==> cur_start < i,
            tokens_of(s@) =~= toks.deep_view() + tokens_acc(
                s@,
                i as int,
                if in_tok {
                    s@.subrange(cur_start as int, i as int)
                } else {
                    Seq::<char>::empty()
                },
            ),
        decreases n - i,
    {
        let ghost cur: Seq<char> = if in_tok {
            s@.subrange(cur_start as int, i as int)
        } else {
            Seq::<char>::empty()
        };
        let c = s.get_char(i);
        if c == ' ' || c == '\t' || c == '\r' || c == '\n' {
            if in_tok {
                let t = s.substring_char(cur_start, i).to_owned();
                proof {
                    assert(tokens_acc(s@, i as int, cur) =~= seq![cur] + tokens_acc(
                        s@,
                        i + 1,
                        Seq::<char>::empty(),
                    ));
                }
                let ghost old_views = toks.deep_view();
                toks.push(t);
                proof {
                    assert(toks.deep_view() =~= old_views.push(cur));
                    assert(old_views.push(cur) + tokens_acc(s@, i + 1, Seq::<char>::empty())
                        =~= old_views + (seq![cur] + tokens_acc(s@, i + 1, Seq::<char>::empty())));
                }
                in_tok = false;
            } else {
                proof {
                    assert(tokens_acc(s@, i as int, cur) =~= tokens_acc(
                        s@,
                        i + 1,
                        Seq::<char>::empty(),
                    ));
                }
            }
        } else {
            if !in_tok {
                cur_start = i;
                in_tok = true;
            }
            proof {
                assert(tokens_acc(s@, i as int, cur) =~= tokens_acc(s@, i + 1, cur.push(s@[
                    i as int])));
                assert(s@.subrange(cur_start as int, i + 1) =~= cur.push(s@[i as int]));
            }
        }
        i += 1;
    }
    if in_tok {
        let t = s.substring_char(cur_start, n).to_owned();
        proof {
            let cur = s@.subrange(cur_start as int, n as int);
            assert(tokens_acc(s@, n as int, cur) =~= seq![cur]);
        }
        let ghost old_views = toks.deep_view();
        toks.push(t);
        proof {
            assert(toks.deep_view() =~= old_views.push(s@.subrange(cur_start as int, n as int)));
            assert(tokens_of(s@) =~= toks.deep_view());
        }
    } else {
        proof {
            assert(tokens_acc(s@, n as int, Seq::<char>::empty()) =~= Seq::<Seq<char>>::empty());
            assert(tokens_of(s@) =~= toks.deep_view());
        }
    }
    toks
}

/// Parses a request line into method, path and version: the first three
/// whitespace-separated tokens. Fewer than three tokens means the line is
/// malformed and yields `None`; extra tokens are ignored.
pub fn parse_request_line(line: &str) -> (r: Option<Request>)
    ensures
        match r {
            Some(req) => {
                &&& tokens_of(line@).len() >= 3
                &&& req.method@ == tokens_of(line@)[0]
                &&& req.path@ == tokens_of(line@)[1]
                &&& req.version@ == tokens_of(line@)[2]
            },
            None => tokens_of(line@).len() < 3,
        },
{
    let toks = split_ws(line);
    if toks.len() < 3 {
        None
    } else {
        let req = Request {
            method: toks[0].clone(),
            path: toks[1].clone(),
            version: toks[2].clone(),
        };
        proof {
            assert(req.method@ == toks.deep_view()[0]);
            assert(req.path@ == toks.deep_view()[1]);
            assert(req.version@ == toks.deep_view()[2]);
        }
        Some(req)
    }
}

} // verus!
