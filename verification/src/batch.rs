//! The command batch builder: accumulates `--set` and `--animate`
//! directives as a flat argument list and serializes them into the one
//! command string that a single transport delivery carries.

use vstd::prelude::*;
use vstd::string::StringExecFns;

use crate::text;

verus! {

/// The view of an argument list: each argument as its character sequence.
pub open spec fn args_view(args: Seq<String>) -> Seq<Seq<char>> {
    args.map_values(|s: String| s@)
}

/// One `key=value` token.  A value that is empty or holds a space is
/// surrounded by double quotes so the renderer's tokenizer keeps it whole.
pub open spec fn kv_token(key: Seq<char>, value: Seq<char>) -> Seq<char> {
    if value.contains(' ') || value.len() == 0 {
        key + "=\""@ + value + "\""@
    } else {
        key + "="@ + value
    }
}

/// The tokens of a property list, in order.
pub open spec fn kv_tokens(props: Seq<(Seq<char>, Seq<char>)>) -> Seq<Seq<char>> {
    props.map_values(|p: (Seq<char>, Seq<char>)| kv_token(p.0, p.1))
}

/// The view of a borrowed property slice.
pub open spec fn props_view(props: Seq<(&str, &str)>) -> Seq<(Seq<char>, Seq<char>)> {
    props.map_values(|p: (&str, &str)| (p.0@, p.1@))
}

/// The arguments a single `set` call appends.
pub open spec fn set_args(item: Seq<char>, props: Seq<(Seq<char>, Seq<char>)>) -> Seq<
    Seq<char>,
> {
    seq!["--set"@, item] + kv_tokens(props)
}

/// The arguments a single `animate` call appends.
pub open spec fn animate_args(curve: Seq<char>, duration: u32) -> Seq<Seq<char>> {
    seq!["--animate"@, curve, text::dec_str(duration as nat)]
}

/// A builder for batching renderer commands; one `execute` of a batch is
/// one transport delivery.
pub struct SketchybarBatch {
    pub args: Vec<String>,
}

impl View for SketchybarBatch {
    type V = Seq<Seq<char>>;

    open spec fn view(&self) -> Seq<Seq<char>> {
        args_view(self.args@)
    }
}

impl SketchybarBatch {
    /// An empty batch.
    pub fn new() -> (r: Self)
        ensures
            r@ == Seq::<Seq<char>>::empty(),
    {
        let r = SketchybarBatch { args: Vec::new() };
        proof {
            assert(r@ =~= Seq::<Seq<char>>::empty());
        }
        r
    }

    /// Appends a `--set <item> <key>=<value>...` directive.
    pub fn set(&mut self, item: &str, props: &[(&str, &str)])
        ensures
            final(self)@ == old(self)@ + set_args(item@, props_view(props@)),
    {
        self.args.push(String::from_str("--set"));
        self.args.push(item.to_owned());
        let ghost base = self.args@;
        let n = props.len();
        let mut i: usize = 0;
        while i < n
            invariant
                n == props@.len(),
                i <= n,
                self.args@.len() == base.len() + i,
                self.args@.subrange(0, base.len() as int) =~= base,
                forall|j: int|
                    0 <= j < i ==> self.args@[base.len() + j]@ == kv_token(
                        props@[j].0@,
                        props@[j].1@,
                    ),
            decreases n - i,
        {
            let (key, value) = props[i];
            let mut token = String::new();
            token.append(key);
            if value.is_empty() || text::contains_char(value, ' ') {
                token.append("=\"");
                token.append(value);
                token.append("\"");
            } else {
                token.append("=");
                token.append(value);
            }
            assert(token@ == kv_token(props@[i as int].0@, props@[i as int].1@));
            self.args.push(token);
            i += 1;
        }
        proof {
            let pre = old(self).args@;
            let rhs = args_view(pre) + set_args(item@, props_view(props@));
            assert(kv_tokens(props_view(props@)).len() == n);
            assert forall|idx: int| 0 <= idx < self.args@.len() implies args_view(self.args@)[idx]
                == rhs[idx] by {
                assert(args_view(self.args@)[idx] == self.args@[idx]@);
                if idx < pre.len() + 2 {
                    assert(self.args@[idx] == base[idx]);
                } else {
                    assert(self.args@[idx]@ == kv_token(
                        props@[idx - pre.len() - 2].0@,
                        props@[idx - pre.len() - 2].1@,
                    ));
                }
            }
            assert(args_view(self.args@) =~= rhs);
        }
    }

    /// Appends a `--animate <curve> <duration>` directive.
    pub fn animate(&mut self, curve: &str, duration: u32)
        ensures
            final(self)@ == old(self)@ + animate_args(curve@, duration),
    {
        self.args.push(String::from_str("--animate"));
        self.args.push(curve.to_owned());
        self.args.push(text::decimal_string(duration as u64));
        proof {
            assert(args_view(self.args@) =~= args_view(old(self).args@) + animate_args(
                curve@,
                duration,
            ));
        }
    }

    /// Whether the batch holds no directive at all.
    pub fn is_empty(&self) -> (r: bool)
        ensures
            r == (self@.len() == 0),
    {
        self.args.is_empty()
    }

    /// The whole batch as one command string: the arguments joined by
    /// single spaces.
    pub fn command_string(&self) -> (r: String)
        ensures
            r@ == joined_args(self@),
    {
        let mut out = String::new();
        let n = self.args.len();
        let mut i: usize = 0;
        while i < n
            invariant
                n == self.args@.len(),
                i <= n,
                out@ == joined_args(self@.take(i as int)),
            decreases n - i,
        {
            if i > 0 {
                out.append(" ");
            }
            out.append(self.args[i].as_str());
            proof {
                reveal_strlit(" ");
                assert(self@.take(i + 1).drop_last() =~= self@.take(i as int));
                assert(self@.take(i + 1).last() == self.args@[i as int]@);
            }
            i += 1;
        }
        proof {
            assert(self@.take(n as int) =~= self@);
        }
        out
    }
}

/// The arguments joined by single spaces; an empty batch joins to the
/// empty string.
pub open spec fn joined_args(args: Seq<Seq<char>>) -> Seq<char>
    decreases args.len(),
{
    if args.len() == 0 {
        Seq::<char>::empty()
    } else if args.len() == 1 {
        args[0]
    } else {
        joined_args(args.drop_last()) + seq![' '] + args.last()
    }
}

} // verus!
