use vstd::prelude::*;
use crate::benchmark::{base_path_spec, discovered, exts_readable, Benchmark, FileName};
use crate::command::strs;
use crate::config::Config;
use crate::error::Error;
use crate::lang::BenchmarkLanguage;
use crate::text::str_eq;

verus! {

/// What a pass over a benchmark's languages does next.
pub enum Next {
    /// Handle this language.
    Variant(BenchmarkLanguage),
    /// Stop, with this outcome.
    Finished(Result<(), Error>),
}

/// The next move of a pass over `langs` that has handled `completed` of them,
/// the last one failing with `failure` where that is `Some`: a failure ends the
/// pass at once, else the next language follows, else the pass succeeds.
pub open spec fn next_spec(langs: Seq<BenchmarkLanguage>, completed: int, failure: Option<Error>) -> Next {
    match failure {
        Some(e) => Next::Finished(Err(e)),
        None => if completed < langs.len() {
            Next::Variant(langs[completed])
        } else {
            Next::Finished(Ok(()))
        },
    }
}

/// The languages that a pass over `langs` handles from position `k` on, and its
/// outcome, where the language at position `j` turns out as `outcomes[j]`.
pub open spec fn drive(
    langs: Seq<BenchmarkLanguage>,
    outcomes: Seq<Option<Error>>,
    k: int,
    failure: Option<Error>,
) -> (Seq<BenchmarkLanguage>, Result<(), Error>)
    decreases langs.len() - k,
{
    match next_spec(langs, k, failure) {
        Next::Variant(l) => if 0 <= k < langs.len() {
            let (rest, r) = drive(langs, outcomes, k + 1, outcomes[k]);
            (seq![l] + rest, r)
        } else {
            (seq![], Ok(()))
        },
        Next::Finished(r) => (seq![], r),
    }
}

fn advance(langs: &Vec<BenchmarkLanguage>, completed: usize, failure: Option<Error>) -> (r: Next)
    requires
        completed <= langs@.len(),
    ensures
        r == next_spec(langs@, completed as int, failure),
{
    match failure {
        Some(e) => Next::Finished(Err(e)),
        None => if completed < langs.len() {
            Next::Variant(langs[completed])
        } else {
            Next::Finished(Ok(()))
        },
    }
}

impl Benchmark {
    /// The next move of a build of every language, in order, that has built
    /// `completed` of them; `failure` is the error of the last one, if it failed.
    pub fn compile_all(&self, completed: usize, failure: Option<Error>) -> (r: Next)
        requires
            completed <= self.languages@.len(),
        ensures
            r == next_spec(self.languages@, completed as int, failure),
    {
        advance(&self.languages, completed, failure)
    }

    /// The next move of a run of every language, in order, that has run
    /// `completed` of them; `failure` is the error of the last one, if it failed.
    pub fn run_all(&self, completed: usize, failure: Option<Error>) -> (r: Next)
        requires
            completed <= self.languages@.len(),
        ensures
            r == next_spec(self.languages@, completed as int, failure),
    {
        advance(&self.languages, completed, failure)
    }
}

/// A pass in which the languages before position `m` succeed and the one at `m`
/// fails handles exactly the languages up to `m`, and ends with that failure.
pub proof fn lemma_fail_fast(langs: Seq<BenchmarkLanguage>, outcomes: Seq<Option<Error>>, m: int)
    requires
        outcomes.len() == langs.len(),
        0 <= m < langs.len(),
        outcomes[m] is Some,
        forall|j: int| 0 <= j < m ==> (#[trigger] outcomes[j]) is None,
    ensures
        drive(langs, outcomes, 0, None) == (langs.take(m + 1), Err::<(), Error>(
            outcomes[m]->Some_0,
        )),
{
    lemma_fail_fast_from(langs, outcomes, m, 0);
    assert(langs.subrange(0, m + 1) =~= langs.take(m + 1));
}

proof fn lemma_fail_fast_from(
    langs: Seq<BenchmarkLanguage>,
    outcomes: Seq<Option<Error>>,
    m: int,
    k: int,
)
    requires
        outcomes.len() == langs.len(),
        0 <= k <= m < langs.len(),
        outcomes[m] is Some,
        forall|j: int| 0 <= j < m ==> (#[trigger] outcomes[j]) is None,
    ensures
        drive(langs, outcomes, k, None) == (langs.subrange(k, m + 1), Err::<(), Error>(
            outcomes[m]->Some_0,
        )),
    decreases m - k,
{
    if k < m {
        lemma_fail_fast_from(langs, outcomes, m, k + 1);
        assert(seq![langs[k]] + langs.subrange(k + 1, m + 1) =~= langs.subrange(k, m + 1));
    } else {
        assert(drive(langs, outcomes, k + 1, outcomes[k]) == (
            Seq::<BenchmarkLanguage>::empty(),
            Err::<(), Error>(outcomes[m]->Some_0),
        ));
        assert(seq![langs[k]] + Seq::<BenchmarkLanguage>::empty() =~= langs.subrange(k, m + 1));
    }
}

/// A pass in which every language succeeds handles all of them, in order, and
/// succeeds.
pub proof fn lemma_all_succeed(langs: Seq<BenchmarkLanguage>, outcomes: Seq<Option<Error>>)
    requires
        outcomes.len() == langs.len(),
        forall|j: int| 0 <= j < outcomes.len() ==> (#[trigger] outcomes[j]) is None,
    ensures
        drive(langs, outcomes, 0, None) == (langs, Ok::<(), Error>(())),
{
    lemma_all_succeed_from(langs, outcomes, 0);
    assert(langs.subrange(0, langs.len() as int) =~= langs);
}

proof fn lemma_all_succeed_from(langs: Seq<BenchmarkLanguage>, outcomes: Seq<Option<Error>>, k: int)
    requires
        outcomes.len() == langs.len(),
        0 <= k <= langs.len(),
        forall|j: int| 0 <= j < outcomes.len() ==> (#[trigger] outcomes[j]) is None,
    ensures
        drive(langs, outcomes, k, None) == (langs.subrange(k, langs.len() as int), Ok::<(), Error>(())),
    decreases langs.len() - k,
{
    if k < langs.len() {
        lemma_all_succeed_from(langs, outcomes, k + 1);
        assert(seq![langs[k]] + langs.subrange(k + 1, langs.len() as int) =~= langs.subrange(
            k,
            langs.len() as int,
        ));
    } else {
        assert(langs.subrange(k, langs.len() as int) =~= Seq::<BenchmarkLanguage>::empty());
    }
}

/// What was read from the directory of one benchmark: the entries it holds and
/// its settings.
pub struct Listing {
    pub files: Vec<FileName>,
    pub config: Config,
}

/// An entry of the suite directory: its name, whether it is a directory, and
/// what reading it as a benchmark directory gave.
pub struct SuiteEntry {
    pub name: String,
    pub is_dir: bool,
    pub listing: Result<Listing, Error>,
}

/// Whether the entry is a benchmark: a directory whose name is not excluded.
pub open spec fn chosen(e: SuiteEntry, exclude: Seq<Seq<char>>) -> bool {
    e.is_dir && !exclude.contains(e.name@)
}

/// The entries that are benchmarks, in order.
pub open spec fn selected(entries: Seq<SuiteEntry>, exclude: Seq<Seq<char>>) -> Seq<SuiteEntry>
    decreases entries.len(),
{
    if entries.len() == 0 {
        seq![]
    } else {
        let rest = selected(entries.drop_last(), exclude);
        if chosen(entries.last(), exclude) {
            rest.push(entries.last())
        } else {
            rest
        }
    }
}

/// Whether a benchmark can be built from the entry: its directory was read and
/// the extensions of its files are text.
pub open spec fn entry_ok(e: SuiteEntry) -> bool {
    e.listing matches Ok(l) && exts_readable(l.files@)
}

/// Whether `err` is the error of building a benchmark from the entry `e`.
pub open spec fn entry_error(e: SuiteEntry, err: Error) -> bool {
    match e.listing {
        Err(x) => err == x,
        Ok(_) => err.path_access_at(base_path_spec(e.name@)),
    }
}

/// Whether `b` is the benchmark built from the entry `e` without the languages
/// of `exclude`.
pub open spec fn built_from(b: Benchmark, e: SuiteEntry, exclude: Seq<BenchmarkLanguage>) -> bool {
    &&& e.listing is Ok
    &&& b.wf()
    &&& b.name@ == e.name@
    &&& b.config == e.listing->Ok_0.config
    &&& b.languages@ == discovered(e.listing->Ok_0.files@, exclude)
}

proof fn lemma_selected_prefix(entries: Seq<SuiteEntry>, exclude: Seq<Seq<char>>, n: int)
    requires
        0 <= n <= entries.len(),
    ensures
        selected(entries.take(n), exclude).len() <= selected(entries, exclude).len(),
        forall|j: int|
            0 <= j < selected(entries.take(n), exclude).len() ==> #[trigger] selected(
                entries.take(n),
                exclude,
            )[j] == selected(entries, exclude)[j],
    decreases entries.len(),
{
    if n == entries.len() {
        assert(entries.take(n) =~= entries);
    } else {
        let init = entries.drop_last();
        assert(entries.take(n) =~= init.take(n));
        lemma_selected_prefix(init, exclude, n);
    }
}

/// Whether `x` is one of the strings of `s`.
pub fn contains_str(s: &[String], x: &str) -> (r: bool)
    ensures
        r == strs(s@).contains(x@),
{
    let mut i: usize = 0;
    while i < s.len()
        invariant
            i <= s@.len(),
            forall|j: int| 0 <= j < i ==> s@[j]@ != x@,
        decreases s@.len() - i,
    {
        if str_eq(s[i].as_str(), x) {
            assert(strs(s@)[i as int] == x@);
            return true;
        }
        i = i + 1;
    }
    assert forall|j: int| 0 <= j < strs(s@).len() implies strs(s@)[j] != x@ by {
        assert(strs(s@)[j] == s@[j]@);
    }
    false
}

impl Benchmark {
    /// Builds one benchmark from each entry that is a directory and is not
    /// excluded, in order, stopping at the first that fails: where its directory
    /// could not be read, with that error, and where an extension is not text.
    /// Other entries are skipped, whatever they hold.
    pub fn load_all(
        exclude_lang: &[BenchmarkLanguage],
        exclude_bench: &[String],
        entries: Vec<SuiteEntry>,
    ) -> (r: Result<Vec<Benchmark>, Error>)
        ensures
            ({
                let sel = selected(entries@, strs(exclude_bench@));
                &&& r is Ok <==> forall|i: int| 0 <= i < sel.len() ==> entry_ok(#[trigger] sel[i])
                &&& r matches Ok(bs) ==> {
                    &&& bs@.len() == sel.len()
                    &&& forall|i: int|
                        0 <= i < bs@.len() ==> built_from(#[trigger] bs@[i], sel[i], exclude_lang@)
                }
                &&& r matches Err(e) ==> exists|m: int|
                    0 <= m < sel.len() && (forall|j: int| 0 <= j < m ==> entry_ok(#[trigger] sel[j]))
                        && !entry_ok(#[trigger] sel[m]) && entry_error(sel[m], e)
            }),
    {
        let ghost orig = entries@;
        let ghost ex = strs(exclude_bench@);
        let n = entries.len();
        let mut rest = entries;
        let mut bs: Vec<Benchmark> = Vec::new();
        let mut k: usize = 0;
        while rest.len() > 0
            invariant
                orig == entries@,
                ex == strs(exclude_bench@),
                orig.len() == n,
                k + rest@.len() == orig.len(),
                rest@ == orig.subrange(k as int, orig.len() as int),
                bs@.len() == selected(orig.take(k as int), ex).len(),
                forall|i: int|
                    0 <= i < bs@.len() ==> entry_ok(#[trigger] selected(orig.take(k as int), ex)[i]),
                forall|i: int|
                    0 <= i < bs@.len() ==> built_from(
                        #[trigger] bs@[i],
                        selected(orig.take(k as int), ex)[i],
                        exclude_lang@,
                    ),
            decreases rest@.len(),
        {
            let ghost before = selected(orig.take(k as int), ex);
            let entry = rest.remove(0);
            assert(entry == orig[k as int]);
            assert(orig.take(k + 1).drop_last() =~= orig.take(k as int));
            assert(orig.take(k + 1).last() == orig[k as int]);
            let ghost after = selected(orig.take(k + 1), ex);
            proof {
                lemma_selected_prefix(orig, ex, k + 1);
            }
            if entry.is_dir && !contains_str(exclude_bench, entry.name.as_str()) {
                assert(after == before.push(entry));
                assert(after[before.len() as int] == entry);
                match entry.listing {
                    Err(e) => {
                        assert(!entry_ok(after[before.len() as int]));
                        assert(forall|j: int| 0 <= j < before.len() ==> after[j] == before[j]);
                        proof {
                            let sel = selected(orig, ex);
                            let m = before.len() as int;
                            assert(after[m] == sel[m]);
                            assert forall|j: int| 0 <= j < m implies entry_ok(#[trigger] sel[j]) by {
                                assert(after[j] == sel[j]);
                            }
                            assert(entry_error(sel[m], e));
                        }
                        return Err(e);
                    },
                    Ok(l) => {
                        let b = Benchmark::new(
                            entry.name.as_str(),
                            exclude_lang,
                            &l.files,
                            l.config,
                        );
                        match b {
                            Ok(b) => {
                                let ghost prev = bs@;
                                assert(built_from(b, entry, exclude_lang@));
                                bs.push(b);
                                assert forall|i: int| 0 <= i < bs@.len() implies entry_ok(
                                    #[trigger] after[i],
                                ) && built_from(bs@[i], after[i], exclude_lang@) by {
                                    if i < prev.len() {
                                        assert(bs@[i] == prev[i]);
                                        assert(after[i] == before[i]);
                                    }
                                }
                            },
                            Err(e) => {
                                assert(!entry_ok(after[before.len() as int]));
                                assert(forall|j: int| 0 <= j < before.len() ==> after[j] == before[j]);
                                proof {
                                    let sel = selected(orig, ex);
                                    let m = before.len() as int;
                                    assert(after[m] == sel[m]);
                                    assert forall|j: int| 0 <= j < m implies entry_ok(
                                        #[trigger] sel[j],
                                    ) by {
                                        assert(after[j] == sel[j]);
                                    }
                                    assert(entry_error(sel[m], e));
                                }
                                return Err(e);
                            },
                        }
                    },
                }
            } else {
                assert(after == before);
            }
            assert(rest@ =~= orig.subrange(k + 1, orig.len() as int));
            k = k + 1;
        }
        assert(orig.take(orig.len() as int) =~= orig);
        Ok(bs)
    }
}

/// Every entry that is loaded is a directory of the suite whose name is not
/// excluded, and every such directory is loaded: an excluded directory and any
/// entry that is not a directory are skipped.
pub proof fn lemma_selection_skips(entries: Seq<SuiteEntry>, exclude: Seq<Seq<char>>)
    ensures
        forall|k: int|
            0 <= k < selected(entries, exclude).len() ==> chosen(
                #[trigger] selected(entries, exclude)[k],
                exclude,
            ) && entries.contains(selected(entries, exclude)[k]),
        forall|i: int|
            0 <= i < entries.len() && chosen(#[trigger] entries[i], exclude) ==> selected(
                entries,
                exclude,
            ).contains(entries[i]),
    decreases entries.len(),
{
    if entries.len() > 0 {
        let init = entries.drop_last();
        lemma_selection_skips(init, exclude);
        let rest = selected(init, exclude);
        let sel = selected(entries, exclude);
        assert forall|k: int| 0 <= k < sel.len() implies chosen(#[trigger] sel[k], exclude)
            && entries.contains(sel[k]) by {
            if k < rest.len() {
                assert(sel[k] == rest[k]);
                let i = choose|i: int| 0 <= i < init.len() && init[i] == rest[k];
                assert(entries[i] == init[i]);
            } else {
                assert(sel[k] == entries.last());
                assert(entries[entries.len() - 1] == entries.last());
            }
        }
        assert forall|i: int| 0 <= i < entries.len() && chosen(#[trigger] entries[i], exclude)
            implies sel.contains(entries[i]) by {
            if i < entries.len() - 1 {
                assert(init[i] == entries[i]);
                let k = choose|k: int| 0 <= k < rest.len() && rest[k] == init[i];
                assert(sel[k] == rest[k]);
            } else {
                assert(sel[rest.len() as int] == entries[i]);
            }
        }
    }
}

} // verus!
