use vstd::prelude::*;
use vstd::string::*;
use crate::command::{push_arg, strs};
use crate::text::{parse_decimal, parse_decimal_spec, split, split_spec, str_eq};

verus! {

/// Repetitions of a timed run where the configuration names none.
pub const DEFAULT_RUNS: u64 = 10;

/// The settings of one benchmark.
pub struct Config {
    /// Arguments of a validation run.
    pub test_args: Vec<String>,
    /// Arguments of a timed run.
    pub args: Vec<String>,
    /// Number of timed repetitions.
    pub runs: u64,
    /// Heap size handed to the compilers that take one.
    pub heap_size: Option<u64>,
}

/// The settings of a benchmark, as plain values.
pub struct ConfigView {
    pub test_args: Seq<Seq<char>>,
    pub args: Seq<Seq<char>>,
    pub runs: u64,
    pub heap_size: Option<u64>,
}

impl View for Config {
    type V = ConfigView;

    open spec fn view(&self) -> ConfigView {
        ConfigView {
            test_args: strs(self.test_args@),
            args: strs(self.args@),
            runs: self.runs,
            heap_size: self.heap_size,
        }
    }
}

/// The settings of a benchmark without a configuration file.
pub open spec fn default_view() -> ConfigView {
    ConfigView { test_args: seq![], args: seq![], runs: DEFAULT_RUNS, heap_size: None }
}

impl Default for Config {
    /// The settings of a benchmark without a configuration file.
    fn default() -> (r: Config)
        ensures
            r@ == default_view(),
            r.test_args@.len() == 0,
            r.args@.len() == 0,
    {
        let r = Config { test_args: Vec::new(), args: Vec::new(), runs: DEFAULT_RUNS, heap_size: None };
        assert(r@.test_args =~= Seq::<Seq<char>>::empty());
        assert(r@.args =~= Seq::<Seq<char>>::empty());
        r
    }
}

/// The pieces of `ws` that are not empty, in order.
pub open spec fn nonempty(ws: Seq<Seq<char>>) -> Seq<Seq<char>>
    decreases ws.len(),
{
    if ws.len() == 0 {
        seq![]
    } else if ws.last().len() == 0 {
        nonempty(ws.drop_last())
    } else {
        nonempty(ws.drop_last()).push(ws.last())
    }
}

/// The words of a line: what the spaces separate.
pub open spec fn words_spec(line: Seq<char>) -> Seq<Seq<char>> {
    nonempty(split_spec(line, ' '))
}

/// The settings `c` after the line whose words are `ws`. A line names a setting
/// by its first word: `args` and `test_args` take the words that follow,
/// `runs` (above zero) and `heap_size` take one number. Any other line changes
/// nothing.
pub open spec fn apply_line(c: ConfigView, ws: Seq<Seq<char>>) -> ConfigView {
    if ws.len() == 0 {
        c
    } else if ws[0] == "args"@ {
        ConfigView { args: ws.skip(1), ..c }
    } else if ws[0] == "test_args"@ {
        ConfigView { test_args: ws.skip(1), ..c }
    } else if ws[0] == "runs"@ && ws.len() == 2 && parse_decimal_spec(ws[1]) is Some
        && parse_decimal_spec(ws[1])->Some_0 > 0 {
        ConfigView { runs: parse_decimal_spec(ws[1])->Some_0, ..c }
    } else if ws[0] == "heap_size"@ && ws.len() == 2 && parse_decimal_spec(ws[1]) is Some {
        ConfigView { heap_size: parse_decimal_spec(ws[1]), ..c }
    } else {
        c
    }
}

/// The settings that the lines `lines` give, each line over the ones before it.
pub open spec fn config_of_lines(lines: Seq<Seq<char>>) -> ConfigView
    decreases lines.len(),
{
    if lines.len() == 0 {
        default_view()
    } else {
        apply_line(config_of_lines(lines.drop_last()), words_spec(lines.last()))
    }
}

/// The settings that the text of a configuration file gives.
pub open spec fn parse_spec(text: Seq<char>) -> ConfigView {
    config_of_lines(split_spec(text, '\n'))
}

/// The words of `line`.
pub fn words(line: &str) -> (r: Vec<String>)
    ensures
        strs(r@) == words_spec(line@),
{
    let pieces = split(line, ' ');
    let ghost all = strs(pieces@);
    let mut r: Vec<String> = Vec::new();
    let mut i: usize = 0;
    while i < pieces.len()
        invariant
            all == strs(pieces@),
            i <= pieces@.len(),
            strs(r@) == nonempty(all.take(i as int)),
        decreases pieces@.len() - i,
    {
        assert(all.take(i + 1).drop_last() =~= all.take(i as int));
        assert(all.take(i + 1).last() == pieces@[i as int]@);
        if pieces[i].as_str().unicode_len() > 0 {
            push_arg(&mut r, pieces[i].as_str());
        }
        i = i + 1;
    }
    assert(all.take(all.len() as int) =~= all);
    r
}

/// The strings of `ws` after the first.
fn rest_of(ws: &Vec<String>) -> (r: Vec<String>)
    requires
        ws@.len() >= 1,
    ensures
        strs(r@) == strs(ws@).skip(1),
{
    let mut r: Vec<String> = Vec::new();
    let mut i: usize = 1;
    assert(strs(r@) =~= strs(ws@).subrange(1, 1));
    while i < ws.len()
        invariant
            1 <= i <= ws@.len(),
            strs(r@) == strs(ws@).subrange(1, i as int),
        decreases ws@.len() - i,
    {
        push_arg(&mut r, ws[i].as_str());
        assert(strs(ws@).subrange(1, i + 1) =~= strs(ws@).subrange(1, i as int).push(ws@[i as int]@));
        i = i + 1;
    }
    assert(strs(ws@).subrange(1, ws@.len() as int) =~= strs(ws@).skip(1));
    r
}

impl Config {
    /// Applies one line, given by its words.
    fn apply(&mut self, ws: &Vec<String>)
        ensures
            final(self)@ == apply_line(old(self)@, strs(ws@)),
    {
        if ws.len() == 0 {
            return;
        }
        let key = ws[0].as_str();
        assert(strs(ws@)[0] == key@);
        proof {
            reveal_strlit("args");
            reveal_strlit("test_args");
            reveal_strlit("runs");
            reveal_strlit("heap_size");
            assert("args"@[0] == 'a' && "test_args"@[0] == 't');
            assert("runs"@[0] == 'r' && "heap_size"@[0] == 'h');
        }
        if str_eq(key, "args") {
            self.args = rest_of(ws);
        } else if str_eq(key, "test_args") {
            self.test_args = rest_of(ws);
        } else if str_eq(key, "runs") && ws.len() == 2 {
            assert(strs(ws@)[1] == ws@[1]@);
            if let Some(n) = parse_decimal(ws[1].as_str()) {
                if n > 0 {
                    self.runs = n;
                }
            }
        } else if str_eq(key, "heap_size") && ws.len() == 2 {
            assert(strs(ws@)[1] == ws@[1]@);
            if let Some(n) = parse_decimal(ws[1].as_str()) {
                self.heap_size = Some(n);
            }
        }
    }

    /// Reads the settings from the text of a configuration file.
    pub fn parse(text: &str) -> (r: Config)
        ensures
            r@ == parse_spec(text@),
    {
        let lines = split(text, '\n');
        let ghost all = strs(lines@);
        let mut c = Config::default();
        let mut i: usize = 0;
        while i < lines.len()
            invariant
                all == strs(lines@),
                i <= lines@.len(),
                c@ == config_of_lines(all.take(i as int)),
            decreases lines@.len() - i,
        {
            assert(all.take(i + 1).drop_last() =~= all.take(i as int));
            assert(all.take(i + 1).last() == lines@[i as int]@);
            let ws = words(lines[i].as_str());
            c.apply(&ws);
            i = i + 1;
        }
        assert(all.take(all.len() as int) =~= all);
        c
    }
}

} // verus!
