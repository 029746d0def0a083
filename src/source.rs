//! The candidate messages: those given, a line of piped input, or the defaults.
use vstd::prelude::*;
use crate::bytes::{append_bytes, NEWLINE};
use crate::config::Config;

verus! {

/// The word separator in a line of input.
pub const SPACE: u8 = 32;

/// `s` cut at every space, left to right; no space gives `s` alone.
pub open spec fn split_spaces(s: Seq<u8>) -> Seq<Seq<u8>>
    decreases s.len(),
{
    if s.len() == 0 {
        seq![Seq::empty()]
    } else {
        let prev = split_spaces(s.drop_last());
        if s.last() == SPACE {
            prev.push(Seq::empty())
        } else {
            prev.update(prev.len() - 1, prev.last().push(s.last()))
        }
    }
}

proof fn lemma_split_nonempty(s: Seq<u8>)
    ensures
        split_spaces(s).len() >= 1,
    decreases s.len(),
{
    if s.len() > 0 {
        lemma_split_nonempty(s.drop_last());
    }
}

/// `line` without its terminator, if it ends with one.
pub open spec fn strip_newline(line: Seq<u8>) -> Seq<u8> {
    if line.len() > 0 && line.last() == NEWLINE {
        line.drop_last()
    } else {
        line
    }
}

/// The views of a list of messages.
pub open spec fn views(v: Seq<Vec<u8>>) -> Seq<Seq<u8>> {
    v.map_values(|m: Vec<u8>| m@)
}

/// The default messages: "y" and "n" in random mode, "y" otherwise.
pub open spec fn default_messages(random: bool) -> Seq<Seq<u8>> {
    if random {
        seq![seq![121u8], seq![110u8]]
    } else {
        seq![seq![121u8]]
    }
}

/// The messages that a run uses: those of `config` if it has any; else, where a
/// line was piped in, its words (the line without terminator, cut at spaces),
/// unless the line is a bare terminator; else the defaults.
pub open spec fn messages_spec(strings: Seq<Seq<u8>>, random: bool, piped: Option<Seq<u8>>) -> Seq<Seq<u8>> {
    if strings.len() > 0 {
        strings
    } else {
        match piped {
            Some(line) => if line.len() == 1 {
                default_messages(random)
            } else {
                split_spaces(strip_newline(line))
            },
            None => default_messages(random),
        }
    }
}

/// The default messages of `config`'s mode.
pub fn get_default(config: &Config) -> (r: Vec<Vec<u8>>)
    ensures
        views(r@) == default_messages(config.random),
{
    let mut y: Vec<u8> = Vec::new();
    y.push(121u8);
    assert(y@ =~= seq![121u8]);
    let mut r: Vec<Vec<u8>> = Vec::new();
    r.push(y);
    if config.random {
        let mut n: Vec<u8> = Vec::new();
        n.push(110u8);
        assert(n@ =~= seq![110u8]);
        r.push(n);
        assert(views(r@)[1] == seq![110u8]);
    }
    assert(views(r@)[0] == seq![121u8]);
    assert(views(r@) =~= default_messages(config.random));
    r
}

/// Cuts `s` at every space.
pub fn split_words(s: &[u8]) -> (r: Vec<Vec<u8>>)
    ensures
        views(r@) == split_spaces(s@),
{
    let mut done: Vec<Vec<u8>> = Vec::new();
    let mut word: Vec<u8> = Vec::new();
    let mut i: usize = 0;
    while i < s.len()
        invariant
            i <= s@.len(),
            views(done@).push(word@) == split_spaces(s@.subrange(0, i as int)),
        decreases s@.len() - i,
    {
        let c = s[i];
        proof {
            let t = s@.subrange(0, i as int + 1);
            assert(t.drop_last() =~= s@.subrange(0, i as int));
            lemma_split_nonempty(s@.subrange(0, i as int));
        }
        if c == SPACE {
            let ghost prev = views(done@).push(word@);
            done.push(word);
            word = Vec::new();
            assert(views(done@).push(word@) =~= prev.push(Seq::empty()));
        } else {
            let ghost prev = views(done@).push(word@);
            word.push(c);
            assert(views(done@).push(word@) =~= prev.update(prev.len() - 1, prev.last().push(c)));
        }
        i = i + 1;
    }
    assert(s@.subrange(0, i as int) =~= s@);
    done.push(word);
    assert(views(done@) =~= split_spaces(s@));
    done
}

/// Copies a list of messages.
fn copy_messages(v: &Vec<Vec<u8>>) -> (r: Vec<Vec<u8>>)
    ensures
        views(r@) == views(v@),
{
    let mut r: Vec<Vec<u8>> = Vec::new();
    let mut i: usize = 0;
    while i < v.len()
        invariant
            i <= v@.len(),
            views(r@) == views(v@.subrange(0, i as int)),
        decreases v@.len() - i,
    {
        let mut m: Vec<u8> = Vec::new();
        append_bytes(&mut m, v[i].as_slice());
        proof {
            assert(m@ =~= v@[i as int]@);
        }
        let ghost prev = r@;
        r.push(m);
        i = i + 1;
        assert(r@ == prev.push(m));
        assert(views(r@) =~= views(v@.subrange(0, i as int))) by {
            assert(views(v@.subrange(0, i as int)) =~= views(v@.subrange(0, i - 1)).push(v@[i - 1]@));
            assert(views(r@) =~= views(prev).push(m@));
        }
    }
    assert(v@.subrange(0, i as int) =~= v@);
    r
}

/// The messages of a run, from `config` and, when standard input is piped, the
/// first line read from it (terminator included, if any).
pub fn get_messages(config: &Config, piped: Option<Vec<u8>>) -> (r: Vec<Vec<u8>>)
    ensures
        views(r@) == messages_spec(
            views(config.strings@),
            config.random,
            match piped {
                Some(l) => Some(l@),
                None => None,
            },
        ),
{
    if config.strings.len() > 0 {
        return copy_messages(&config.strings);
    }
    match piped {
        Some(line) => {
            if line.len() == 1 {
                get_default(config)
            } else {
                let end: usize = if line.len() > 0 && line[line.len() - 1] == NEWLINE {
                    line.len() - 1
                } else {
                    line.len()
                };
                let mut text: Vec<u8> = Vec::new();
                let mut i: usize = 0;
                while i < end
                    invariant
                        i <= end <= line@.len(),
                        text@ == line@.subrange(0, i as int),
                    decreases end - i,
                {
                    text.push(line[i]);
                    i = i + 1;
                    assert(text@ =~= line@.subrange(0, i as int));
                }
                assert(text@ =~= strip_newline(line@));
                split_words(text.as_slice())
            }
        },
        None => get_default(config),
    }
}

} // verus!
