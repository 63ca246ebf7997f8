use vstd::prelude::*;
use crate::paths::{file_name_of, join_path, path_file_name, path_joined};

verus! {

/// One step of a mirror copy.
#[derive(Clone, Debug)]
pub enum CopyStep {
    /// Create the directory `to` with every missing parent, then inspect
    /// `from` and report it to the plan: a file, or a directory with its
    /// entries. A `from` that does not exist fails the copy.
    Mirror { from: String, to: String },
    /// Copy the file `from` to the path `to`.
    CopyFile { from: String, to: String },
}

/// A step as plain values: whether it mirrors, its source and its
/// destination.
pub type StepModel = (bool, Seq<char>, Seq<char>);

impl View for CopyStep {
    type V = StepModel;

    open spec fn view(&self) -> StepModel {
        match self {
            CopyStep::Mirror { from, to } => (true, from@, to@),
            CopyStep::CopyFile { from, to } => (false, from@, to@),
        }
    }
}

/// The name a copied file takes in its destination directory: its own, or
/// `unknown` for a path without one.
pub open spec fn copied_file_name(from: Seq<char>) -> Seq<char> {
    match path_file_name(from) {
        Some(n) => n,
        None => seq!['u', 'n', 'k', 'n', 'o', 'w', 'n'],
    }
}

/// The steps that mirror each target into a snapshot: the source path under
/// the source root, into the destination path under the snapshot directory.
pub open spec fn snapshot_steps(
    source_root: Seq<char>,
    snapshot_dir: Seq<char>,
    targets: Seq<(String, String)>,
) -> Seq<StepModel> {
    Seq::new(
        targets.len(),
        |i: int|
            (
                true,
                path_joined(source_root, targets[i].0@),
                path_joined(snapshot_dir, targets[i].1@),
            ),
    )
}

/// The steps that put each target back from a snapshot: the reverse of
/// `snapshot_steps`.
pub open spec fn restore_steps(
    source_root: Seq<char>,
    snapshot_dir: Seq<char>,
    targets: Seq<(String, String)>,
) -> Seq<StepModel> {
    Seq::new(
        targets.len(),
        |i: int|
            (
                true,
                path_joined(snapshot_dir, targets[i].1@),
                path_joined(source_root, targets[i].0@),
            ),
    )
}

/// The steps for the entries of a directory: each sub-directory is mirrored
/// and each file copied, under the same name on both sides.
pub open spec fn entry_steps(from: Seq<char>, to: Seq<char>, entries: Seq<(String, bool)>) -> Seq<
    StepModel,
> {
    Seq::new(
        entries.len(),
        |i: int| (entries[i].1, path_joined(from, entries[i].0@), path_joined(to, entries[i].0@)),
    )
}

/// The plain values of a sequence of steps.
pub open spec fn models(steps: Seq<CopyStep>) -> Seq<StepModel> {
    steps.map_values(|s: CopyStep| s@)
}

/// The steps of a mirror copy that remain, the next one first. Steps for
/// the contents of a directory come before the steps that were waiting, so
/// each target is finished before the next begins.
pub struct CopyPlan {
    steps: Vec<CopyStep>,
}

impl View for CopyPlan {
    type V = Seq<StepModel>;

    closed spec fn view(&self) -> Seq<StepModel> {
        models(self.steps@)
    }
}

impl CopyPlan {
    /// The plan of a snapshot of `targets` from `source_root` into
    /// `snapshot_dir`, in the order of the targets.
    pub fn for_snapshot(source_root: &String, snapshot_dir: &String, targets: &Vec<(String, String)>) -> (r:
        CopyPlan)
        ensures
            r@ == snapshot_steps(source_root@, snapshot_dir@, targets@),
    {
        let mut steps: Vec<CopyStep> = Vec::new();
        let mut i: usize = 0;
        while i < targets.len()
            invariant
                i <= targets@.len(),
                steps@.len() == i,
                models(steps@) == snapshot_steps(
                    source_root@,
                    snapshot_dir@,
                    targets@,
                ).take(i as int),
            decreases targets@.len() - i,
        {
            let from = join_path(source_root, &targets[i].0);
            let to = join_path(snapshot_dir, &targets[i].1);
            let ghost prev = steps@;
            steps.push(CopyStep::Mirror { from, to });
            assert(steps@ == prev.push(steps@[i as int]));
            assert(models(steps@) =~= snapshot_steps(
                source_root@,
                snapshot_dir@,
                targets@,
            ).take(i + 1));
            i = i + 1;
        }
        assert(snapshot_steps(source_root@, snapshot_dir@, targets@).take(i as int)
            =~= snapshot_steps(source_root@, snapshot_dir@, targets@));
        CopyPlan { steps }
    }

    /// The plan that restores `targets` from `snapshot_dir` onto
    /// `source_root`, in the order of the targets.
    pub fn for_restore(source_root: &String, snapshot_dir: &String, targets: &Vec<(String, String)>) -> (r:
        CopyPlan)
        ensures
            r@ == restore_steps(source_root@, snapshot_dir@, targets@),
    {
        let mut steps: Vec<CopyStep> = Vec::new();
        let mut i: usize = 0;
        while i < targets.len()
            invariant
                i <= targets@.len(),
                steps@.len() == i,
                models(steps@) == restore_steps(
                    source_root@,
                    snapshot_dir@,
                    targets@,
                ).take(i as int),
            decreases targets@.len() - i,
        {
            let from = join_path(snapshot_dir, &targets[i].1);
            let to = join_path(source_root, &targets[i].0);
            let ghost prev = steps@;
            steps.push(CopyStep::Mirror { from, to });
            assert(steps@ == prev.push(steps@[i as int]));
            assert(models(steps@) =~= restore_steps(
                source_root@,
                snapshot_dir@,
                targets@,
            ).take(i + 1));
            i = i + 1;
        }
        assert(restore_steps(source_root@, snapshot_dir@, targets@).take(i as int)
            =~= restore_steps(source_root@, snapshot_dir@, targets@));
        CopyPlan { steps }
    }

    /// Whether no step remains.
    pub fn is_done(&self) -> (r: bool)
        ensures
            r == (self@.len() == 0),
    {
        self.steps.len() == 0
    }

    /// Takes the next step off the plan.
    pub fn next_step(&mut self) -> (r: Option<CopyStep>)
        ensures
            old(self)@.len() == 0 ==> r is None && final(self)@ == old(self)@,
            old(self)@.len() > 0 ==> (r matches Some(s) && s@ == old(self)@[0]) && final(self)@
                == old(self)@.drop_first(),
    {
        if self.steps.len() == 0 {
            return None;
        }
        let ghost before = self.steps@;
        let s = self.steps.remove(0);
        assert(models(self.steps@) =~= models(before).drop_first());
        Some(s)
    }

    /// Reports that the `from` of a mirror step is a file: it is copied into
    /// the directory `to` under its own name, before anything else.
    pub fn found_file(&mut self, from: &String, to: &String)
        ensures
            final(self)@ == seq![(false, from@, path_joined(to@, copied_file_name(from@)))] + old(
                self,
            )@,
    {
        let name = match file_name_of(from) {
            Some(n) => n,
            None => {
                let u = "unknown";
                proof {
                    reveal_strlit("unknown");
                }
                let n = u.to_owned();
                assert(n@ =~= seq!['u', 'n', 'k', 'n', 'o', 'w', 'n']);
                n
            },
        };
        assert(name@ == copied_file_name(from@));
        let dest = join_path(to, &name);
        let ghost before = self.steps@;
        let step = CopyStep::CopyFile { from: from.clone(), to: dest };
        self.steps.insert(0, step);
        assert(models(self.steps@) =~= seq![step@] + models(before));
    }

    /// Reports that the `from` of a mirror step is a directory with the given
    /// entries (name, and whether it is a directory): their steps come next,
    /// in the order given.
    pub fn found_dir(&mut self, from: &String, to: &String, entries: &Vec<(String, bool)>)
        ensures
            final(self)@ == entry_steps(from@, to@, entries@) + old(self)@,
    {
        let ghost want = entry_steps(from@, to@, entries@);
        let mut steps: Vec<CopyStep> = Vec::new();
        let mut i: usize = 0;
        while i < entries.len()
            invariant
                i <= entries@.len(),
                steps@.len() == i,
                want == entry_steps(from@, to@, entries@),
                models(steps@) == want.take(i as int),
            decreases entries@.len() - i,
        {
            let f = join_path(from, &entries[i].0);
            let t = join_path(to, &entries[i].0);
            let step = if entries[i].1 {
                CopyStep::Mirror { from: f, to: t }
            } else {
                CopyStep::CopyFile { from: f, to: t }
            };
            steps.push(step);
            assert(models(steps@) =~= want.take(i + 1));
            i = i + 1;
        }
        assert(want.take(i as int) =~= want);
        let ghost front = steps@;
        let mut j: usize = 0;
        let n = self.steps.len();
        let ghost rest = self.steps@;
        while j < n
            invariant
                j <= n,
                n == rest.len(),
                steps@ == front + rest.take(j as int),
                self.steps@ == rest,
            decreases n - j,
        {
            steps.push(self.steps[j].clone_step());
            assert(steps@ =~= front + rest.take(j + 1));
            j = j + 1;
        }
        assert(rest.take(n as int) =~= rest);
        self.steps = steps;
        assert(models(self.steps@) =~= want + models(rest));
    }
}

impl CopyStep {
    /// A copy of the step.
    pub fn clone_step(&self) -> (r: CopyStep)
        ensures
            r == *self,
    {
        match self {
            CopyStep::Mirror { from, to } => CopyStep::Mirror { from: from.clone(), to: to.clone() },
            CopyStep::CopyFile { from, to } => CopyStep::CopyFile {
                from: from.clone(),
                to: to.clone(),
            },
        }
    }
}

/// A file target whose destination is empty is copied straight into the
/// snapshot directory, under the name of the source file: the plan of such a
/// snapshot starts by mirroring the file, and once the file is reported, the
/// only step left copies it there.
pub proof fn lemma_file_target_lands_in_snapshot(
    source_root: Seq<char>,
    snapshot_dir: Seq<char>,
    target: (String, String),
    start: Seq<StepModel>,
    step: StepModel,
    after_file: Seq<StepModel>,
)
    requires
        target.1@.len() == 0,
        start == snapshot_steps(source_root, snapshot_dir, seq![target]),
        step == start[0],
        after_file == seq![(false, step.1, path_joined(step.2, copied_file_name(step.1)))]
            + start.drop_first(),
    ensures
        step == (true, path_joined(source_root, target.0@), path_joined(snapshot_dir, seq![])),
        after_file == seq![
            (
                false,
                path_joined(source_root, target.0@),
                path_joined(
                    path_joined(snapshot_dir, seq![]),
                    copied_file_name(path_joined(source_root, target.0@)),
                ),
            ),
        ],
{
    assert(target.1@ =~= Seq::<char>::empty());
    assert(start.drop_first() =~= Seq::<StepModel>::empty());
    assert(after_file =~= seq![(false, step.1, path_joined(step.2, copied_file_name(step.1)))]);
}

} // verus!
