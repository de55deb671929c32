//! Command lines: whitespace-separated words, and the shell's commands.
use vstd::prelude::*;
use crate::fs::proto::MAX_NAME_LEN;

verus! {

/// ASCII whitespace: space, tab, LF, VT, FF, CR.
pub open spec fn is_space(b: u8) -> bool {
    b == 32 || (9 <= b <= 13)
}

/// The words of `s`: maximal runs of bytes other than whitespace, in order.
pub open spec fn words(s: Seq<u8>) -> Seq<Seq<u8>>
    decreases s.len(),
{
    if s.len() == 0 {
        Seq::empty()
    } else {
        let before = words(s.drop_last());
        let b = s.last();
        if is_space(b) {
            before
        } else if s.len() > 1 && !is_space(s[s.len() - 2]) {
            before.update(before.len() - 1, before.last().push(b))
        } else {
            before.push(seq![b])
        }
    }
}

/// After a byte other than whitespace there is a word.
proof fn lemma_words_nonempty(s: Seq<u8>)
    requires
        s.len() > 0,
        !is_space(s.last()),
    ensures
        words(s).len() > 0,
    decreases s.len(),
{
    if s.len() > 1 && !is_space(s[s.len() - 2]) {
        lemma_words_nonempty(s.drop_last());
    }
}

/// Every word is non-empty and holds no whitespace.
pub proof fn lemma_words_clean(s: Seq<u8>)
    ensures
        forall|k: int| 0 <= k < words(s).len() ==> #[trigger] words(s)[k].len() > 0,
        forall|k: int, j: int| 0 <= k < words(s).len() && 0 <= j < words(s)[k].len() ==> !is_space(#[trigger] words(s)[k][j]),
    decreases s.len(),
{
    if s.len() > 0 {
        let p = s.drop_last();
        lemma_words_clean(p);
        let b = s.last();
        if !is_space(b) && s.len() > 1 && !is_space(s[s.len() - 2]) {
            lemma_words_nonempty(p);
            let before = words(p);
            let w = before.last().push(b);
            assert(words(s) == before.update(before.len() - 1, w));
            assert forall|k: int, j: int| 0 <= k < words(s).len() && 0 <= j < words(s)[k].len() implies !is_space(#[trigger] words(s)[k][j]) by {
                if k == before.len() - 1 && j < before.last().len() {
                    assert(words(s)[k][j] == before[k][j]);
                }
            }
        }
    }
}

fn space(b: u8) -> (r: bool)
    ensures
        r == is_space(b),
{
    b == 32 || (9 <= b && b <= 13)
}

/// The views of a list of byte strings.
pub open spec fn views(v: Seq<Vec<u8>>) -> Seq<Seq<u8>> {
    v.map_values(|t: Vec<u8>| t@)
}

/// Split a command line into words.
pub fn split_words(line: &[u8]) -> (out: Vec<Vec<u8>>)
    ensures
        views(out@) == words(line@),
{
    let mut out: Vec<Vec<u8>> = Vec::new();
    let mut i: usize = 0;
    while i < line.len()
        invariant
            i <= line@.len(),
            views(out@) == words(line@.take(i as int)),
        decreases line@.len() - i,
    {
        let b = line[i];
        let ghost prefix = line@.take(i as int + 1);
        proof {
            assert(prefix.drop_last() =~= line@.take(i as int));
            assert(prefix.last() == b);
        }
        if space(b) {
        } else if i > 0 && !space(line[i - 1]) {
            proof {
                assert(prefix[prefix.len() - 2] == line@[i - 1]);
                assert(line@.take(i as int).last() == line@[i - 1]);
                lemma_words_nonempty(line@.take(i as int));
            }
            let ghost before = out@;
            let mut last = out.pop().unwrap();
            last.push(b);
            out.push(last);
            proof {
                assert(views(out@) =~= words(prefix));
            }
        } else {
            let mut w: Vec<u8> = Vec::new();
            w.push(b);
            out.push(w);
            proof {
                if i > 0 {
                    assert(prefix[prefix.len() - 2] == line@[i - 1]);
                }
                assert(w@ =~= seq![b]);
                assert(views(out@) =~= words(prefix));
            }
        }
        i = i + 1;
    }
    proof {
        assert(line@.take(i as int) =~= line@);
    }
    out
}

/// A shell command.
pub enum Command {
    /// A blank line.
    Empty,
    /// `help`.
    Help,
    /// `exit`: power off.
    Exit,
    /// `ls`.
    List,
    /// `cat <file>`; `None` when the name is missing.
    Cat(Option<Vec<u8>>),
    /// `./<stem> <args>...`, and `hello` for `./hello`.
    Run { stem: Vec<u8>, args: Vec<Vec<u8>> },
    /// Anything else, by its first word.
    Unknown(Vec<u8>),
}

pub open spec fn help_word() -> Seq<u8> {
    seq![104u8, 101u8, 108u8, 112u8]
}

pub open spec fn exit_word() -> Seq<u8> {
    seq![101u8, 120u8, 105u8, 116u8]
}

pub open spec fn ls_word() -> Seq<u8> {
    seq![108u8, 115u8]
}

pub open spec fn cat_word() -> Seq<u8> {
    seq![99u8, 97u8, 116u8]
}

pub open spec fn hello_word() -> Seq<u8> {
    seq![104u8, 101u8, 108u8, 108u8, 111u8]
}

/// The `./` that runs a program.
pub open spec fn run_prefix() -> Seq<u8> {
    seq![46u8, 47u8]
}

fn is_word(w: &Vec<u8>, lit: &[u8]) -> (b: bool)
    ensures
        b == (w@ == lit@),
{
    if w.len() != lit.len() {
        return false;
    }
    let mut k: usize = 0;
    while k < w.len()
        invariant
            k <= w@.len(),
            w@.len() == lit@.len(),
            forall|j: int| 0 <= j < k ==> w@[j] == lit@[j],
        decreases w@.len() - k,
    {
        if w[k] != lit[k] {
            return false;
        }
        k = k + 1;
    }
    assert(w@ =~= lit@);
    true
}

/// The command a line asks for.
pub fn parse_command(line: &[u8]) -> (c: Command)
    ensures
        ({
            let ws = words(line@);
            if ws.len() == 0 {
                c is Empty
            } else if ws[0] == help_word() {
                c is Help
            } else if ws[0] == exit_word() {
                c is Exit
            } else if ws[0] == ls_word() {
                c is List
            } else if ws[0] == cat_word() {
                c matches Command::Cat(name) && if ws.len() > 1 {
                    name matches Some(n) && n@ == ws[1]
                } else {
                    name is None
                }
            } else if ws[0] == hello_word() {
                c matches Command::Run { stem, args } && stem@ == hello_word() && args@.len() == 0
            } else if ws[0].len() >= 2 && ws[0].take(2) == run_prefix() {
                c matches Command::Run { stem, args } && stem@ == ws[0].skip(2) && views(args@) == ws.skip(1)
            } else {
                c matches Command::Unknown(w) && w@ == ws[0]
            }
        }),
{
    let mut ws = split_words(line);
    let ghost all = views(ws@);
    if ws.len() == 0 {
        return Command::Empty;
    }
    let help: [u8; 4] = [104, 101, 108, 112];
    let exit: [u8; 4] = [101, 120, 105, 116];
    let ls: [u8; 2] = [108, 115];
    let cat: [u8; 3] = [99, 97, 116];
    let hello: [u8; 5] = [104, 101, 108, 108, 111];
    assert(help@ =~= help_word());
    assert(exit@ =~= exit_word());
    assert(ls@ =~= ls_word());
    assert(cat@ =~= cat_word());
    assert(hello@ =~= hello_word());
    assert(ws@[0]@ == all[0]);
    if is_word(&ws[0], help.as_slice()) {
        return Command::Help;
    }
    if is_word(&ws[0], exit.as_slice()) {
        return Command::Exit;
    }
    if is_word(&ws[0], ls.as_slice()) {
        return Command::List;
    }
    if is_word(&ws[0], cat.as_slice()) {
        if ws.len() > 1 {
            let name = ws.remove(1);
            assert(name@ == all[1]);
            return Command::Cat(Some(name));
        }
        return Command::Cat(None);
    }
    if is_word(&ws[0], hello.as_slice()) {
        let mut stem: Vec<u8> = Vec::new();
        let mut k: usize = 0;
        while k < 5
            invariant
                k <= 5,
                hello@ == hello_word(),
                stem@ == hello_word().take(k as int),
            decreases 5 - k,
        {
            stem.push(hello[k]);
            proof {
                assert(hello_word().take(k as int + 1) =~= hello_word().take(k as int).push(hello_word()[k as int]));
            }
            k = k + 1;
        }
        assert(hello_word().take(5) =~= hello_word());
        return Command::Run { stem, args: Vec::new() };
    }
    let first = ws.remove(0);
    proof {
        assert(views(ws@) =~= all.skip(1));
    }
    if first.len() >= 2 && first[0] == 46 && first[1] == 47 {
        proof {
            assert(first@.take(2) =~= run_prefix());
        }
        let mut stem: Vec<u8> = Vec::new();
        let mut k: usize = 2;
        while k < first.len()
            invariant
                2 <= k <= first@.len(),
                stem@ == first@.subrange(2, k as int),
            decreases first@.len() - k,
        {
            stem.push(first[k]);
            proof {
                assert(first@.subrange(2, k as int + 1) =~= first@.subrange(2, k as int).push(first@[k as int]));
            }
            k = k + 1;
        }
        assert(first@.subrange(2, first@.len() as int) =~= first@.skip(2));
        return Command::Run { stem, args: ws };
    }
    proof {
        if first@.len() >= 2 && first@.take(2) == run_prefix() {
            assert(first@.take(2)[0] == 46 && first@.take(2)[1] == 47);
        }
    }
    Command::Unknown(first)
}

/// A program name the file service can open: 1 to `MAX_NAME_LEN` bytes.
pub fn program_file(stem: &[u8]) -> (ok: bool)
    ensures
        ok == (0 < stem@.len() <= MAX_NAME_LEN),
{
    stem.len() > 0 && stem.len() <= MAX_NAME_LEN
}

} // verus!
