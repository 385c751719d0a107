//! Dataframes from a table's files: the batches parsed from the files are
//! united top to bottom into one dataframe.
//!
//! The accumulation is best effort. A file that could not be parsed, or that
//! `polars` cannot unite with the rows gathered before it, is left out, and
//! the files after it still count. What became of each file is reported
//! next to the dataframe.
use crate::text::{lemma_split_nonempty, split_seq, split_text};
use polars::prelude::Column;
use polars::prelude::DataFrame;
use polars::prelude::PolarsError;
use vstd::prelude::*;
use vstd::string::*;

verus! {

/// `polars`' dataframe: a table of named columns of equal length. Verus
/// sees nothing inside; what the contracts need of its contents goes by the
/// names [`frame_rows`], [`frame_columns`] and [`frame_types`].
#[verifier::external_type_specification]
#[verifier::external_body]
pub struct ExDataFrame(DataFrame);

/// `polars`' column. Declared because a dataframe hands out its columns
/// when indexed; no function here touches one.
#[verifier::external_type_specification]
#[verifier::external_body]
pub struct ExColumn(Column);

/// `polars`' error. Carried from the wrapper to the code that turns it into
/// a [`FileOutcome`]; nothing is read from it.
#[verifier::external_type_specification]
#[verifier::external_body]
pub struct ExPolarsError(PolarsError);

/// The rows of a dataframe, top to bottom; a row stands here as the text of
/// each of its cells, left to right.
pub uninterp spec fn frame_rows(frame: DataFrame) -> Seq<Seq<Seq<char>>>;

/// The names of a dataframe's columns, left to right.
pub uninterp spec fn frame_columns(frame: DataFrame) -> Seq<Seq<char>>;

/// The data types of a dataframe's columns, left to right, each as text.
pub uninterp spec fn frame_types(frame: DataFrame) -> Seq<Seq<char>>;

/// Whether `polars` unites `batch` with `accumulated`: whether
/// `DataFrame::vstack` succeeds on the two. Nothing is claimed of when it
/// does, beyond what [`stack`] says of a success.
pub uninterp spec fn unites(accumulated: DataFrame, batch: DataFrame) -> bool;

/// `DataFrame::default`: the dataframe without columns and without rows.
#[verifier::external_body]
fn empty_frame() -> (frame: DataFrame)
    ensures
        frame_rows(frame).len() == 0,
        frame_columns(frame).len() == 0,
        frame_types(frame).len() == 0,
{
    DataFrame::default()
}

/// `DataFrame::height`: the number of rows.
#[verifier::external_body]
fn frame_height(frame: &DataFrame) -> (height: usize)
    ensures
        height == frame_rows(*frame).len(),
{
    frame.height()
}

/// `DataFrame::vstack`: `batch` appended below `accumulated`, as a new
/// dataframe. `polars` decides whether the two can be united; its answer
/// goes by the name [`unites`]. Where it unites them, the rows of the result
/// are those of both in that order and its columns are named as those of
/// `batch`; the two had the same column names unless `accumulated` had
/// neither columns nor rows. With as many columns on both sides the result
/// keeps the column types of `accumulated`; otherwise it is `batch` itself
/// and has its types. That the rows of `batch` arrive as they were holds of
/// the column types that this crate builds `polars` with; the decimal type,
/// whose cells may be rescaled on the way, is not among them. `polars` adds
/// the two heights in a `usize` and stops the program if that overflows,
/// hence the precondition.
#[verifier::external_body]
fn stack(accumulated: &DataFrame, batch: &DataFrame) -> (stacked: Result<DataFrame, PolarsError>)
    requires
        frame_rows(*accumulated).len() + frame_rows(*batch).len() <= usize::MAX,
    ensures
        stacked is Ok <==> unites(*accumulated, *batch),
        stacked matches Ok(united) ==> frame_rows(united) == frame_rows(*accumulated) + frame_rows(
            *batch,
        ),
        stacked matches Ok(united) ==> frame_columns(united) == frame_columns(*batch),
        stacked is Ok ==> frame_columns(*accumulated) == frame_columns(*batch) || (frame_rows(
            *accumulated,
        ).len() == 0 && frame_columns(*accumulated).len() == 0),
        stacked matches Ok(united) ==> frame_types(united) == if frame_columns(
            *accumulated,
        ).len() == frame_columns(*batch).len() {
            frame_types(*accumulated)
        } else {
            frame_types(*batch)
        },
{
    accumulated.vstack(batch)
}

/// What became of one file of a table.
#[derive(Debug, Clone, Copy, PartialEq, Eq, Structural)]
pub enum FileOutcome {
    /// Its rows are in the result.
    Kept,
    /// It could not be parsed; it was left out.
    Corrupt,
    /// It was parsed but could not be united with the rows before it; it
    /// was left out.
    Incompatible,
}

/// The rows that a file contributes when it is kept; none where it could
/// not be parsed.
pub open spec fn batch_rows(file: Option<DataFrame>) -> Seq<Seq<Seq<char>>> {
    match file {
        Some(batch) => frame_rows(batch),
        None => Seq::empty(),
    }
}

/// The column names of a file; none where it could not be parsed.
pub open spec fn batch_columns(file: Option<DataFrame>) -> Seq<Seq<char>> {
    match file {
        Some(batch) => frame_columns(batch),
        None => Seq::empty(),
    }
}

/// The column types of a file; none where it could not be parsed.
pub open spec fn batch_types(file: Option<DataFrame>) -> Seq<Seq<char>> {
    match file {
        Some(batch) => frame_types(batch),
        None => Seq::empty(),
    }
}

/// The rows of the files that were kept, in the order of the files.
pub open spec fn kept_rows(files: Seq<Option<DataFrame>>, outcomes: Seq<FileOutcome>) -> Seq<
    Seq<Seq<char>>,
>
    decreases files.len(),
{
    if files.len() == 0 || outcomes.len() == 0 {
        Seq::empty()
    } else {
        kept_rows(files.drop_last(), outcomes.drop_last()) + if outcomes.last() is Kept {
            batch_rows(files.last())
        } else {
            Seq::empty()
        }
    }
}

/// The column names of the last file that was kept; none if none was.
pub open spec fn kept_columns(files: Seq<Option<DataFrame>>, outcomes: Seq<FileOutcome>) -> Seq<
    Seq<char>,
>
    decreases files.len(),
{
    if files.len() == 0 || outcomes.len() == 0 {
        Seq::empty()
    } else if outcomes.last() is Kept {
        batch_columns(files.last())
    } else {
        kept_columns(files.drop_last(), outcomes.drop_last())
    }
}

/// The column types of the last file that was kept with no row before it:
/// the file that the files united after it were appended to. None if no
/// file was kept.
pub open spec fn kept_types(files: Seq<Option<DataFrame>>, outcomes: Seq<FileOutcome>) -> Seq<
    Seq<char>,
>
    decreases files.len(),
{
    if files.len() == 0 || outcomes.len() == 0 {
        Seq::empty()
    } else if outcomes.last() is Kept && kept_rows(files.drop_last(), outcomes.drop_last()).len()
        == 0 {
        batch_types(files.last())
    } else {
        kept_types(files.drop_last(), outcomes.drop_last())
    }
}

/// The rows of every file that could be parsed, in the order of the files.
pub open spec fn all_rows(files: Seq<Option<DataFrame>>) -> Seq<Seq<Seq<char>>>
    decreases files.len(),
{
    if files.len() == 0 {
        Seq::empty()
    } else {
        all_rows(files.drop_last()) + batch_rows(files.last())
    }
}

/// Whether `batch` can be put to `polars` for a union with `accumulated`
/// and is united by it.
pub open spec fn union_succeeds(accumulated: DataFrame, batch: DataFrame) -> bool {
    frame_rows(accumulated).len() + frame_rows(batch).len() <= usize::MAX && unites(
        accumulated,
        batch,
    )
}

/// One step of the accumulation: what the accumulator `before` and the file
/// `parsed` give. A file that could not be parsed is left out. A file read
/// while the accumulator has no row takes its place. Any other file is
/// united with the accumulator exactly where `polars` unites the two, and
/// left out where it does not.
pub open spec fn step_fits(
    before: DataFrame,
    parsed: Option<DataFrame>,
    after: DataFrame,
    outcome: FileOutcome,
) -> bool {
    match parsed {
        None => outcome is Corrupt && after == before,
        Some(batch) => if frame_rows(before).len() == 0 {
            outcome is Kept && after == batch
        } else if !union_succeeds(before, batch) {
            outcome is Incompatible && after == before
        } else {
            &&& outcome is Kept
            &&& frame_rows(after) == frame_rows(before) + frame_rows(batch)
            &&& frame_columns(after) == frame_columns(before)
            &&& frame_columns(batch) == frame_columns(before)
            &&& frame_types(after) == frame_types(before)
        },
    }
}

/// A whole accumulation: `trail` holds the accumulator before the first
/// file, after each file in turn, and so at its end the result.
pub open spec fn run_fits(
    files: Seq<Option<DataFrame>>,
    outcomes: Seq<FileOutcome>,
    trail: Seq<DataFrame>,
) -> bool {
    &&& outcomes.len() == files.len()
    &&& trail.len() == files.len() + 1
    &&& frame_rows(trail[0]).len() == 0
    &&& frame_columns(trail[0]).len() == 0
    &&& frame_types(trail[0]).len() == 0
    &&& forall|at: int|
        0 <= at < files.len() ==> #[trigger] step_fits(
            trail[at],
            files[at],
            trail[at + 1],
            outcomes[at],
        )
}

/// What holds of the outcome of file `at`, given the files before it: a
/// file is corrupt exactly if it could not be parsed; a file is only ever
/// found incompatible with rows already there; and a file kept on top of
/// rows already there has the column names of the file kept before it.
pub open spec fn outcome_fits(
    files: Seq<Option<DataFrame>>,
    outcomes: Seq<FileOutcome>,
    at: int,
) -> bool {
    let before = kept_rows(files.take(at), outcomes.take(at));
    &&& outcomes[at] is Corrupt <==> files[at] is None
    &&& outcomes[at] is Incompatible ==> before.len() > 0
    &&& outcomes[at] is Kept && before.len() > 0 ==> batch_columns(files[at]) == kept_columns(
        files.take(at),
        outcomes.take(at),
    )
}

/// `outcomes` tells truthfully what became of each of `files`.
pub open spec fn faithful(files: Seq<Option<DataFrame>>, outcomes: Seq<FileOutcome>) -> bool {
    &&& outcomes.len() == files.len()
    &&& forall|at: int| 0 <= at < files.len() ==> #[trigger] outcome_fits(files, outcomes, at)
}

/// A table brought into memory, with the fate of each of its files.
pub struct Materialized {
    pub frame: DataFrame,
    pub outcomes: Vec<FileOutcome>,
}

impl Materialized {
    /// This is what the accumulation of `files` gives: some run of the
    /// accumulation over these files has these outcomes and ends in this
    /// frame.
    pub open spec fn describes(self, files: Seq<Option<DataFrame>>) -> bool {
        exists|trail: Seq<DataFrame>|
            #[trigger] run_fits(files, self.outcomes@, trail) && trail[files.len() as int]
                == self.frame
    }
}

/// The accumulator after an attempt to unite it with a file, and what became
/// of the file. `stacked` is what the attempt gave: the united dataframe
/// takes the accumulator's place and the file is kept, or the accumulator
/// stays as it was and the file is left out.
pub fn settle(accumulated: DataFrame, stacked: Result<DataFrame, PolarsError>) -> (after: (
    DataFrame,
    FileOutcome,
))
    ensures
        after == match stacked {
            Ok(united) => (united, FileOutcome::Kept),
            Err(_) => (accumulated, FileOutcome::Incompatible),
        },
{
    match stacked {
        Ok(united) => (united, FileOutcome::Kept),
        Err(_) => (accumulated, FileOutcome::Incompatible),
    }
}

/// The accumulator after one file, and what became of the file. `parsed` is
/// what reading the file gave, nothing where it could not be read.
pub fn absorb(accumulated: DataFrame, parsed: Option<DataFrame>) -> (after: (DataFrame, FileOutcome))
    ensures
        step_fits(accumulated, parsed, after.0, after.1),
{
    match parsed {
        None => (accumulated, FileOutcome::Corrupt),
        Some(batch) => {
            let height = frame_height(&accumulated);
            if height == 0 {
                (batch, FileOutcome::Kept)
            } else if frame_height(&batch) > usize::MAX - height {
                (accumulated, FileOutcome::Incompatible)
            } else {
                let stacked = stack(&accumulated, &batch);
                settle(accumulated, stacked)
            }
        },
    }
}

/// Unites the batches parsed from a table's files top to bottom, in the
/// order given; `None` stands for a file that could not be parsed.
pub fn accumulate(files: Vec<Option<DataFrame>>) -> (result: Materialized)
    ensures
        result.describes(files@),
        faithful(files@, result.outcomes@),
        frame_rows(result.frame) == kept_rows(files@, result.outcomes@),
        frame_columns(result.frame) == kept_columns(files@, result.outcomes@),
        frame_types(result.frame) == kept_types(files@, result.outcomes@),
{
    let mut frame = empty_frame();
    let mut outcomes: Vec<FileOutcome> = Vec::new();
    let ghost mut trail: Seq<DataFrame> = seq![frame];
    for parsed in it: files
        invariant
            it.seq() == files@,
            outcomes.len() == it.index(),
            trail.len() == it.index() + 1,
            trail[it.index()] == frame,
            frame_rows(trail[0]).len() == 0,
            frame_columns(trail[0]).len() == 0,
            frame_types(trail[0]).len() == 0,
            forall|at: int|
                0 <= at < it.index() ==> #[trigger] step_fits(
                    trail[at],
                    files@[at],
                    trail[at + 1],
                    outcomes@[at],
                ),
    {
        let ghost before = outcomes@;
        let ghost trail_before = trail;
        let (next, outcome) = absorb(frame, parsed);
        frame = next;
        outcomes.push(outcome);
        proof {
            trail = trail.push(frame);
            assert forall|at: int| 0 <= at < it.index() + 1 implies #[trigger] step_fits(
                trail[at],
                files@[at],
                trail[at + 1],
                outcomes@[at],
            ) by {
                if at < it.index() {
                    assert(step_fits(trail_before[at], files@[at], trail_before[at + 1], before[at]));
                }
            }
        }
    }
    let result = Materialized { frame, outcomes };
    proof {
        assert(run_fits(files@, result.outcomes@, trail) && trail[files@.len() as int]
            == result.frame);
        lemma_run_content(files@, result.outcomes@, trail);
    }
    result
}

/// A run cut short by its last file is a run of the files before it.
proof fn lemma_run_prefix(
    files: Seq<Option<DataFrame>>,
    outcomes: Seq<FileOutcome>,
    trail: Seq<DataFrame>,
)
    requires
        run_fits(files, outcomes, trail),
        files.len() > 0,
    ensures
        run_fits(files.drop_last(), outcomes.drop_last(), trail.drop_last()),
{
    let shorter = files.drop_last();
    let fewer = outcomes.drop_last();
    let cut = trail.drop_last();
    assert forall|at: int| 0 <= at < shorter.len() implies #[trigger] step_fits(
        cut[at],
        shorter[at],
        cut[at + 1],
        fewer[at],
    ) by {
        assert(step_fits(trail[at], files[at], trail[at + 1], outcomes[at]));
    }
}

/// What a run says of its result and of each union it attempted: the
/// result holds the rows of the files kept, in their order, under the column
/// names of the last file kept and the column types of the file that the
/// later ones were appended to; each accumulator on the way held the rows
/// kept up to there; the outcomes are truthful; and a file is found
/// incompatible exactly where it was parsed, rows were gathered before it,
/// and `polars` did not unite the two.
pub proof fn lemma_run_content(
    files: Seq<Option<DataFrame>>,
    outcomes: Seq<FileOutcome>,
    trail: Seq<DataFrame>,
)
    requires
        run_fits(files, outcomes, trail),
    ensures
        frame_rows(trail[files.len() as int]) == kept_rows(files, outcomes),
        frame_columns(trail[files.len() as int]) == kept_columns(files, outcomes),
        frame_types(trail[files.len() as int]) == kept_types(files, outcomes),
        forall|at: int|
            0 <= at <= files.len() ==> frame_rows(#[trigger] trail[at]) == kept_rows(
                files.take(at),
                outcomes.take(at),
            ),
        faithful(files, outcomes),
        forall|at: int|
            0 <= at < files.len() ==> ((#[trigger] outcomes[at]) is Incompatible <==> files[at] is Some
                && frame_rows(trail[at]).len() > 0 && !union_succeeds(trail[at], files[at]->0)),
    decreases files.len(),
{
    let n = files.len() as int;
    if n > 0 {
        let shorter = files.drop_last();
        let fewer = outcomes.drop_last();
        let cut = trail.drop_last();
        lemma_run_prefix(files, outcomes, trail);
        lemma_run_content(shorter, fewer, cut);
        assert(step_fits(trail[n - 1], files[n - 1], trail[n], outcomes[n - 1]));
        assert(cut[n - 1] == trail[n - 1]);
        assert(frame_rows(trail[n - 1]) + Seq::<Seq<Seq<char>>>::empty() =~= frame_rows(
            trail[n - 1],
        ));
        assert(Seq::<Seq<Seq<char>>>::empty() + batch_rows(files[n - 1]) =~= batch_rows(
            files[n - 1],
        ));
        assert forall|at: int| 0 <= at <= n implies frame_rows(#[trigger] trail[at]) == kept_rows(
            files.take(at),
            outcomes.take(at),
        ) by {
            if at < n {
                assert(trail[at] == cut[at]);
                assert(files.take(at) =~= shorter.take(at));
                assert(outcomes.take(at) =~= fewer.take(at));
            } else {
                assert(files.take(n) =~= files);
                assert(outcomes.take(n) =~= outcomes);
            }
        }
        assert forall|at: int| 0 <= at < n implies #[trigger] outcome_fits(files, outcomes, at) by {
            assert(step_fits(trail[at], files[at], trail[at + 1], outcomes[at]));
            if at < n - 1 {
                assert(outcome_fits(shorter, fewer, at));
                assert(files.take(at) =~= shorter.take(at));
                assert(outcomes.take(at) =~= fewer.take(at));
            } else {
                assert(files.take(at) =~= shorter);
                assert(outcomes.take(at) =~= fewer);
            }
        }
        assert forall|at: int| 0 <= at < n implies ((#[trigger] outcomes[at]) is Incompatible
            <==> files[at] is Some && frame_rows(trail[at]).len() > 0 && !union_succeeds(
            trail[at],
            files[at]->0,
        )) by {
            assert(step_fits(trail[at], files[at], trail[at + 1], outcomes[at]));
        }
    } else {
        assert(files.take(0) =~= files);
        assert(outcomes.take(0) =~= outcomes);
    }
}

/// What is truthful of some files is truthful of all but the last.
proof fn lemma_faithful_prefix(files: Seq<Option<DataFrame>>, outcomes: Seq<FileOutcome>)
    requires
        faithful(files, outcomes),
        files.len() > 0,
    ensures
        faithful(files.drop_last(), outcomes.drop_last()),
{
    let shorter = files.drop_last();
    let fewer = outcomes.drop_last();
    assert forall|at: int| 0 <= at < shorter.len() implies #[trigger] outcome_fits(
        shorter,
        fewer,
        at,
    ) by {
        assert(outcome_fits(files, outcomes, at));
        assert(shorter.take(at) =~= files.take(at));
        assert(fewer.take(at) =~= outcomes.take(at));
    }
}

/// Every file was kept.
pub open spec fn all_kept(outcomes: Seq<FileOutcome>) -> bool {
    forall|i: int| 0 <= i < outcomes.len() ==> outcomes[i] is Kept
}

/// No file was found incompatible.
pub open spec fn none_incompatible(outcomes: Seq<FileOutcome>) -> bool {
    forall|i: int| 0 <= i < outcomes.len() ==> !(outcomes[i] is Incompatible)
}

/// Every file could be parsed.
pub open spec fn all_parsed(files: Seq<Option<DataFrame>>) -> bool {
    forall|i: int| 0 <= i < files.len() ==> files[i] is Some
}

/// Wherever a parsed file met an accumulator with rows, `polars` united the
/// two: no union that the run attempted was refused.
pub open spec fn unions_succeed(files: Seq<Option<DataFrame>>, trail: Seq<DataFrame>) -> bool {
    forall|at: int|
        0 <= at < files.len() && files[at] is Some && frame_rows(#[trigger] trail[at]).len() > 0
            ==> union_succeeds(trail[at], files[at]->0)
}

/// Where no union failed, the result holds the rows of every file that
/// could be parsed, in the order of the files.
pub proof fn lemma_kept_rows_are_all_valid_rows(
    files: Seq<Option<DataFrame>>,
    outcomes: Seq<FileOutcome>,
)
    requires
        faithful(files, outcomes),
        none_incompatible(outcomes),
    ensures
        kept_rows(files, outcomes) == all_rows(files),
    decreases files.len(),
{
    if files.len() > 0 {
        lemma_faithful_prefix(files, outcomes);
        let fewer = outcomes.drop_last();
        assert forall|i: int| 0 <= i < fewer.len() implies !(fewer[i] is Incompatible) by {
            assert(fewer[i] == outcomes[i]);
        }
        lemma_kept_rows_are_all_valid_rows(files.drop_last(), fewer);
        assert(outcome_fits(files, outcomes, files.len() - 1));
        assert(!(outcomes[outcomes.len() - 1] is Incompatible));
    }
}

/// A file is left out only where it could not be parsed or `polars` refused
/// the union: in a run whose every attempted union succeeded, exactly the
/// files that could be parsed are kept, and the result holds the rows of
/// all of them in the order of the files.
pub proof fn lemma_united_files_are_kept(
    files: Seq<Option<DataFrame>>,
    outcomes: Seq<FileOutcome>,
    trail: Seq<DataFrame>,
)
    requires
        run_fits(files, outcomes, trail),
        unions_succeed(files, trail),
    ensures
        none_incompatible(outcomes),
        forall|at: int| 0 <= at < files.len() ==> (outcomes[at] is Kept <==> files[at] is Some),
        forall|at: int| 0 <= at < files.len() ==> (outcomes[at] is Corrupt <==> files[at] is None),
        frame_rows(trail[files.len() as int]) == all_rows(files),
{
    lemma_run_content(files, outcomes, trail);
    assert forall|at: int| 0 <= at < files.len() implies !(outcomes[at] is Incompatible) by {
        assert(frame_rows(trail[at]).len() >= 0);
    }
    assert forall|at: int| 0 <= at < files.len() implies (outcomes[at] is Corrupt
        <==> files[at] is None) by {
        assert(outcome_fits(files, outcomes, at));
    }
    lemma_kept_rows_are_all_valid_rows(files, outcomes);
}

/// Files that all parse and all unite come out whole: every file is kept and
/// the result holds the rows of all of them, in listing order.
pub proof fn lemma_readable_files_come_out_whole(
    files: Seq<Option<DataFrame>>,
    outcomes: Seq<FileOutcome>,
    trail: Seq<DataFrame>,
)
    requires
        run_fits(files, outcomes, trail),
        all_parsed(files),
        unions_succeed(files, trail),
    ensures
        all_kept(outcomes),
        frame_rows(trail[files.len() as int]) == all_rows(files),
{
    lemma_united_files_are_kept(files, outcomes, trail);
}

/// A file that could not be parsed adds no row: the rows of all files are
/// those of the files without it.
pub proof fn lemma_unreadable_file_adds_nothing(files: Seq<Option<DataFrame>>, at: int)
    requires
        0 <= at < files.len(),
        files[at] is None,
    ensures
        all_rows(files) == all_rows(files.remove(at)),
    decreases files.len(),
{
    let rest = files.remove(at);
    if at == files.len() - 1 {
        assert(rest =~= files.drop_last());
        assert(all_rows(files.drop_last()) + Seq::<Seq<Seq<char>>>::empty() =~= all_rows(
            files.drop_last(),
        ));
    } else {
        lemma_unreadable_file_adds_nothing(files.drop_last(), at);
        assert(rest.drop_last() =~= files.drop_last().remove(at));
        assert(rest.last() == files.last());
    }
}

/// One corrupt file does not spoil the rest: where one file could not be
/// parsed and every other file parsed and was united by `polars` with what
/// was gathered before it, the corrupt file is marked, every other file is
/// kept, and the result holds the rows of all the other files, in their
/// order, and nothing else.
pub proof fn lemma_corrupt_file_is_skipped(
    files: Seq<Option<DataFrame>>,
    outcomes: Seq<FileOutcome>,
    trail: Seq<DataFrame>,
    corrupt: int,
)
    requires
        run_fits(files, outcomes, trail),
        0 <= corrupt < files.len(),
        files[corrupt] is None,
        forall|i: int| 0 <= i < files.len() && i != corrupt ==> files[i] is Some,
        unions_succeed(files, trail),
    ensures
        outcomes[corrupt] is Corrupt,
        forall|i: int| 0 <= i < outcomes.len() && i != corrupt ==> outcomes[i] is Kept,
        frame_rows(trail[files.len() as int]) == all_rows(files.remove(corrupt)),
{
    lemma_united_files_are_kept(files, outcomes, trail);
    lemma_unreadable_file_adds_nothing(files, corrupt);
}

/// The rows of all files, as a multiset, are those of one file together with
/// those of the others.
proof fn lemma_rows_split(files: Seq<Option<DataFrame>>, at: int)
    requires
        0 <= at < files.len(),
    ensures
        all_rows(files).to_multiset() == all_rows(files.remove(at)).to_multiset().add(
            batch_rows(files[at]).to_multiset(),
        ),
    decreases files.len(),
{
    broadcast use vstd::multiset::group_multiset_axioms;

    let rest = files.remove(at);
    vstd::seq_lib::lemma_multiset_commutative(all_rows(files.drop_last()), batch_rows(files.last()));
    if at == files.len() - 1 {
        assert(rest =~= files.drop_last());
    } else {
        lemma_rows_split(files.drop_last(), at);
        assert(rest.drop_last() =~= files.drop_last().remove(at));
        assert(rest.last() == files.last());
        vstd::seq_lib::lemma_multiset_commutative(all_rows(rest.drop_last()), batch_rows(rest.last()));
        assert(all_rows(files).to_multiset() =~= all_rows(rest).to_multiset().add(
            batch_rows(files[at]).to_multiset(),
        ));
    }
}

/// The same files in another order hold the same rows, order aside.
pub proof fn lemma_all_rows_up_to_order(
    first: Seq<Option<DataFrame>>,
    second: Seq<Option<DataFrame>>,
)
    requires
        first.to_multiset() == second.to_multiset(),
    ensures
        all_rows(first).to_multiset() == all_rows(second).to_multiset(),
    decreases first.len(),
{
    broadcast use vstd::multiset::group_multiset_axioms;

    first.to_multiset_ensures();
    second.to_multiset_ensures();
    if first.len() == 0 {
        assert(second.len() == 0);
    } else {
        let file = first.last();
        let shorter = first.drop_last();
        shorter.to_multiset_ensures();
        assert(shorter.push(file) =~= first);
        assert(first.to_multiset() =~= shorter.to_multiset().insert(file));
        assert(first.contains(file));
        assert(second.to_multiset().count(file) > 0);
        assert(second.contains(file));
        let at = choose|at: int| 0 <= at < second.len() && second[at] == file;
        let others = second.remove(at);
        assert(others.to_multiset() =~= second.to_multiset().remove(file));
        assert(shorter.to_multiset() =~= first.to_multiset().remove(file));
        lemma_all_rows_up_to_order(shorter, others);
        lemma_rows_split(second, at);
        vstd::seq_lib::lemma_multiset_commutative(all_rows(shorter), batch_rows(file));
    }
}

/// Where every file is kept, the result has at least the rows of each.
proof fn lemma_kept_rows_cover(files: Seq<Option<DataFrame>>, outcomes: Seq<FileOutcome>, at: int)
    requires
        outcomes.len() == files.len(),
        all_kept(outcomes),
        0 <= at < files.len(),
    ensures
        kept_rows(files, outcomes).len() >= batch_rows(files[at]).len(),
    decreases files.len(),
{
    if at < files.len() - 1 {
        let fewer = outcomes.drop_last();
        assert forall|i: int| 0 <= i < fewer.len() implies fewer[i] is Kept by {
            assert(fewer[i] == outcomes[i]);
        }
        lemma_kept_rows_cover(files.drop_last(), fewer, at);
    } else {
        assert(outcomes[at] is Kept);
    }
}

/// Where every file is kept, every file that holds a row has the column
/// names of the result.
proof fn lemma_columns_shared(files: Seq<Option<DataFrame>>, outcomes: Seq<FileOutcome>, at: int)
    requires
        faithful(files, outcomes),
        all_kept(outcomes),
        0 <= at < files.len(),
        batch_rows(files[at]).len() > 0,
    ensures
        batch_columns(files[at]) == kept_columns(files, outcomes),
    decreases files.len(),
{
    let last = files.len() - 1;
    assert(outcomes[last] is Kept);
    if at < last {
        let shorter = files.drop_last();
        let fewer = outcomes.drop_last();
        lemma_faithful_prefix(files, outcomes);
        assert forall|i: int| 0 <= i < fewer.len() implies fewer[i] is Kept by {
            assert(fewer[i] == outcomes[i]);
        }
        lemma_columns_shared(shorter, fewer, at);
        lemma_kept_rows_cover(shorter, fewer, at);
        assert(outcome_fits(files, outcomes, last));
        assert(files.take(last) =~= shorter);
        assert(outcomes.take(last) =~= fewer);
    }
}

/// A result with a row has a file with a row.
proof fn lemma_some_file_has_rows(files: Seq<Option<DataFrame>>) -> (at: int)
    requires
        all_rows(files).len() > 0,
    ensures
        0 <= at < files.len(),
        batch_rows(files[at]).len() > 0,
    decreases files.len(),
{
    if batch_rows(files.last()).len() > 0 {
        files.len() - 1
    } else {
        lemma_some_file_has_rows(files.drop_last())
    }
}

/// Where every file is kept and all files have the same column types, the
/// result has those types.
proof fn lemma_types_shared(
    files: Seq<Option<DataFrame>>,
    outcomes: Seq<FileOutcome>,
    types: Seq<Seq<char>>,
)
    requires
        outcomes.len() == files.len(),
        files.len() > 0,
        all_kept(outcomes),
        forall|i: int| 0 <= i < files.len() ==> batch_types(#[trigger] files[i]) == types,
    ensures
        kept_types(files, outcomes) == types,
    decreases files.len(),
{
    let last = files.len() - 1;
    assert(outcomes[last] is Kept);
    assert(batch_types(files[last]) == types);
    let shorter = files.drop_last();
    let fewer = outcomes.drop_last();
    if kept_rows(shorter, fewer).len() > 0 {
        assert forall|i: int| 0 <= i < fewer.len() implies fewer[i] is Kept by {
            assert(fewer[i] == outcomes[i]);
        }
        assert forall|i: int| 0 <= i < shorter.len() implies batch_types(
            #[trigger] shorter[i],
        ) == types by {
            assert(shorter[i] == files[i]);
        }
        lemma_types_shared(shorter, fewer, types);
    }
}

/// Files of one schema give a result of that schema: where every file
/// parses to the same column names and column types and every attempted
/// union succeeds, the result has those names and types, in whatever order
/// the files came.
pub proof fn lemma_shared_schema_is_kept(
    files: Seq<Option<DataFrame>>,
    outcomes: Seq<FileOutcome>,
    trail: Seq<DataFrame>,
    columns: Seq<Seq<char>>,
    types: Seq<Seq<char>>,
)
    requires
        run_fits(files, outcomes, trail),
        files.len() > 0,
        all_parsed(files),
        forall|i: int| 0 <= i < files.len() ==> batch_columns(#[trigger] files[i]) == columns,
        forall|i: int| 0 <= i < files.len() ==> batch_types(#[trigger] files[i]) == types,
        unions_succeed(files, trail),
    ensures
        frame_columns(trail[files.len() as int]) == columns,
        frame_types(trail[files.len() as int]) == types,
{
    lemma_run_content(files, outcomes, trail);
    lemma_united_files_are_kept(files, outcomes, trail);
    assert(outcomes[files.len() - 1] is Kept);
    assert(batch_columns(files[files.len() - 1]) == columns);
    lemma_types_shared(files, outcomes, types);
}

/// The order in which the files arrive does not change what is read: where
/// the same files, all parsed, are accumulated in two orders and every
/// attempted union succeeds in both, the two results hold the same rows,
/// order aside, and, if there is any row at all, the same column names.
pub proof fn lemma_order_keeps_rows_and_columns(
    first: Seq<Option<DataFrame>>,
    first_outcomes: Seq<FileOutcome>,
    first_trail: Seq<DataFrame>,
    second: Seq<Option<DataFrame>>,
    second_outcomes: Seq<FileOutcome>,
    second_trail: Seq<DataFrame>,
)
    requires
        run_fits(first, first_outcomes, first_trail),
        run_fits(second, second_outcomes, second_trail),
        all_parsed(first),
        unions_succeed(first, first_trail),
        unions_succeed(second, second_trail),
        first.to_multiset() == second.to_multiset(),
    ensures
        all_kept(first_outcomes),
        all_kept(second_outcomes),
        frame_rows(first_trail[first.len() as int]).to_multiset() == frame_rows(
            second_trail[second.len() as int],
        ).to_multiset(),
        frame_rows(first_trail[first.len() as int]).len() > 0 ==> frame_columns(
            first_trail[first.len() as int],
        ) == frame_columns(second_trail[second.len() as int]),
{
    first.to_multiset_ensures();
    second.to_multiset_ensures();
    assert forall|i: int| 0 <= i < second.len() implies second[i] is Some by {
        assert(second.contains(second[i]));
        assert(first.to_multiset().count(second[i]) > 0);
        assert(first.contains(second[i]));
    }
    lemma_run_content(first, first_outcomes, first_trail);
    lemma_run_content(second, second_outcomes, second_trail);
    lemma_united_files_are_kept(first, first_outcomes, first_trail);
    lemma_united_files_are_kept(second, second_outcomes, second_trail);
    lemma_all_rows_up_to_order(first, second);
    if frame_rows(first_trail[first.len() as int]).len() > 0 {
        let at = lemma_some_file_has_rows(first);
        let file = first[at];
        assert(first.contains(file));
        assert(second.to_multiset().count(file) > 0);
        assert(second.contains(file));
        let there = choose|there: int| 0 <= there < second.len() && second[there] == file;
        lemma_columns_shared(first, first_outcomes, at);
        lemma_columns_shared(second, second_outcomes, there);
    }
}

/// The last piece of a file's address: its name in the table's directory.
pub open spec fn file_name(uri: Seq<char>) -> Seq<char> {
    split_seq(uri, '/').last()
}

/// The name under which the object store holds the file at `uri`.
pub fn file_name_of(uri: &str) -> (name: String)
    ensures
        name@ == file_name(uri@),
{
    let mut pieces = split_text(uri, '/');
    proof {
        lemma_split_nonempty(uri@, '/');
    }
    match pieces.pop() {
        Some(name) => name,
        None => String::new(),
    }
}

/// The names of the files at `uris`, in order.
pub open spec fn file_names(uris: Seq<Seq<char>>) -> Seq<Seq<char>> {
    Seq::new(uris.len(), |i: int| file_name(uris[i]))
}

/// The names under which the object store holds the files at `uris`.
pub fn file_names_of(uris: &Vec<String>) -> (names: Vec<String>)
    ensures
        names.deep_view() == file_names(uris.deep_view()),
{
    let mut names: Vec<String> = Vec::new();
    let mut i: usize = 0;
    while i < uris.len()
        invariant
            i <= uris.len(),
            names.len() == i,
            forall|k: int| 0 <= k < i ==> names[k]@ == file_name(uris[k]@),
        decreases uris.len() - i,
    {
        names.push(file_name_of(uris[i].as_str()));
        i += 1;
    }
    names
}

} // verus!
