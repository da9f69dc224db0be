//! Where the program keeps its files, and what they are called.

use vstd::prelude::*;

use crate::text::{append_decimal, append_text, decimal, joined_text, law_decimal_is_read_back};

verus! {

/// The settings file.
pub fn config_file_name() -> (name: &'static str)
    ensures
        name@ == "config.toml"@,
{
    "config.toml"
}

/// The log of the diagnostics.
pub fn log_file_name() -> (name: &'static str)
    ensures
        name@ == "soundlock_debug.log"@,
{
    "soundlock_debug.log"
}

/// The steps of the way to a file of the program: into its folder below the user's
/// application data where that is known, else next to the program.
pub open spec fn way_to(appdata: Option<Seq<char>>, file: Seq<char>) -> Seq<Seq<char>> {
    match appdata {
        Some(base) => seq![base, "SoundLockRust"@, file],
        None => seq![file],
    }
}

pub fn path_parts(appdata: &Option<String>, file: &str) -> (parts: Vec<String>)
    ensures
        parts@.len() == way_to(
            match appdata {
                Some(base) => Some(base@),
                None => None,
            },
            file@,
        ).len(),
        forall|i: int|
            0 <= i < parts@.len() ==> (#[trigger] parts@[i])@ == way_to(
                match appdata {
                    Some(base) => Some(base@),
                    None => None,
                },
                file@,
            )[i],
{
    let mut parts: Vec<String> = Vec::new();
    if let Some(base) = appdata {
        parts.push(base.clone());
        parts.push("SoundLockRust".to_owned());
    }
    parts.push(file.to_owned());
    parts
}

/// The name that a file is written under before it takes the place of the one it replaces.
pub open spec fn temporary_name(file: Seq<char>, pid: u32, sequence: u64) -> Seq<char> {
    "."@ + file + "."@ + decimal(pid as nat) + "."@ + decimal(sequence as nat) + ".tmp"@
}

/// A name for the `sequence`th file that the process `pid` writes.
pub fn unique_temp_name(file: &str, pid: u32, sequence: u64) -> (name: String)
    ensures
        name@ == temporary_name(file@, pid, sequence),
{
    let mut name = joined_text(".", file, ".");
    append_decimal(&mut name, pid as u64);
    append_text(&mut name, ".");
    append_decimal(&mut name, sequence);
    append_text(&mut name, ".tmp");
    proof {
        assert(name@ =~= temporary_name(file@, pid, sequence));
    }
    name
}

/// The names of two files that one process writes are different.
pub proof fn law_temporary_names_are_distinct(file: Seq<char>, pid: u32, a: u64, b: u64)
    requires
        temporary_name(file, pid, a) == temporary_name(file, pid, b),
    ensures
        a == b,
{
    let front = "."@ + file + "."@ + decimal(pid as nat) + "."@;
    let back = ".tmp"@;
    let digits_a = decimal(a as nat);
    let digits_b = decimal(b as nat);
    assert(temporary_name(file, pid, a) =~= front + digits_a + back);
    assert(temporary_name(file, pid, b) =~= front + digits_b + back);
    assert((front + digits_a + back).len() == (front + digits_b + back).len());
    let start = front.len() as int;
    assert((front + digits_a + back).subrange(start, start + digits_a.len()) =~= digits_a);
    assert((front + digits_b + back).subrange(start, start + digits_b.len()) =~= digits_b);
    law_decimal_is_read_back(a as nat);
    law_decimal_is_read_back(b as nat);
}

/// The name that a settings file which cannot be read is kept under; a number is added
/// where the name is in use.
pub open spec fn backup_name(file: Seq<char>, timestamp: u64, suffix: u32) -> Seq<char> {
    if suffix == 0 {
        file + ".corrupt-"@ + decimal(timestamp as nat)
    } else {
        file + ".corrupt-"@ + decimal(timestamp as nat) + "-"@ + decimal(suffix as nat)
    }
}

/// The search for such a name that is not in use.
#[derive(Clone, Copy, Debug, PartialEq, Eq, Structural)]
pub struct BackupSearch {
    pub timestamp: u64,
    pub suffix: u32,
}

impl BackupSearch {
    pub fn new(timestamp: u64) -> (search: BackupSearch)
        ensures
            search == (BackupSearch { timestamp, suffix: 0 }),
    {
        BackupSearch { timestamp, suffix: 0 }
    }

    /// The name to be tried next.
    pub fn candidate(&self, file: &str) -> (name: String)
        ensures
            name@ == backup_name(file@, self.timestamp, self.suffix),
    {
        let mut name = String::new();
        append_text(&mut name, file);
        append_text(&mut name, ".corrupt-");
        append_decimal(&mut name, self.timestamp);
        if self.suffix > 0 {
            append_text(&mut name, "-");
            append_decimal(&mut name, self.suffix as u64);
        }
        proof {
            assert(name@ =~= backup_name(file@, self.timestamp, self.suffix));
        }
        name
    }

    /// Goes on to the next name, where this one is in use.
    pub fn reject(&mut self)
        requires
            old(self).suffix < u32::MAX,
        ensures
            *final(self) == (BackupSearch {
                suffix: (old(self).suffix + 1) as u32,
                ..*old(self)
            }),
    {
        self.suffix = self.suffix + 1;
    }
}

/// The names that the search tries are all different.
pub proof fn law_backup_names_are_distinct(file: Seq<char>, timestamp: u64, a: u32, b: u32)
    requires
        backup_name(file, timestamp, a) == backup_name(file, timestamp, b),
    ensures
        a == b,
{
    let front = file + ".corrupt-"@ + decimal(timestamp as nat);
    reveal_strlit("-");
    if a != 0 && b != 0 {
        let longer = front + "-"@;
        assert((longer + decimal(a as nat)).skip(longer.len() as int) =~= decimal(a as nat));
        assert((longer + decimal(b as nat)).skip(longer.len() as int) =~= decimal(b as nat));
        law_decimal_is_read_back(a as nat);
        law_decimal_is_read_back(b as nat);
    } else if a != 0 {
        assert(backup_name(file, timestamp, a).len() > front.len());
    } else if b != 0 {
        assert(backup_name(file, timestamp, b).len() > front.len());
    }
}

/// The number that a search from `from` on comes to where `in_use` says of each number from
/// zero on whether its name is in use; all later names are free.
pub open spec fn chosen_suffix(in_use: Seq<bool>, from: int) -> int
    decreases in_use.len() - from,
{
    if from < 0 || from >= in_use.len() || !in_use[from] {
        from
    } else {
        chosen_suffix(in_use, from + 1)
    }
}

/// Runs a search where it is known of the first numbers whether their names are in use, and
/// all later names are free.
pub fn next_backup_name(in_use: &Vec<bool>, file: &str, timestamp: u64) -> (name: String)
    requires
        in_use@.len() <= u32::MAX,
    ensures
        0 <= chosen_suffix(in_use@, 0) <= in_use@.len(),
        name@ == backup_name(file@, timestamp, chosen_suffix(in_use@, 0) as u32),
{
    let mut search = BackupSearch::new(timestamp);
    while (search.suffix as usize) < in_use.len() && in_use[search.suffix as usize]
        invariant
            in_use@.len() <= u32::MAX,
            search.timestamp == timestamp,
            search.suffix <= in_use@.len(),
            chosen_suffix(in_use@, 0) == chosen_suffix(in_use@, search.suffix as int),
        decreases in_use@.len() - search.suffix,
    {
        search.reject();
    }
    search.candidate(file)
}

/// The search takes the smallest number whose name is not in use.
pub proof fn law_smallest_free_suffix_is_taken(in_use: Seq<bool>, from: int)
    requires
        0 <= from <= in_use.len(),
    ensures
        from <= chosen_suffix(in_use, from) <= in_use.len(),
        chosen_suffix(in_use, from) < in_use.len() ==> !in_use[chosen_suffix(in_use, from)],
        forall|suffix: int|
            from <= suffix < chosen_suffix(in_use, from) ==> #[trigger] in_use[suffix],
    decreases in_use.len() - from,
{
    if from < in_use.len() && in_use[from] {
        law_smallest_free_suffix_is_taken(in_use, from + 1);
    }
}

/// What saving a file does next. The text goes to a file of its own first, which then takes
/// the place of the old one at once.
#[derive(Clone, Copy, Debug, PartialEq, Eq, Structural)]
pub enum SaveStep {
    CreateTemporary,
    Write,
    Flush,
    Sync,
    /// Let the temporary file take the place of the old one.
    Replace,
    RemoveTemporary,
}

/// Where saving stands.
#[derive(Clone, Copy, Debug, PartialEq, Eq, Structural)]
pub enum SaveStage {
    Doing(SaveStep),
    Saved,
    Failed,
}

#[derive(Clone, Copy, Debug, PartialEq, Eq, Structural)]
pub struct Saving {
    pub stage: SaveStage,
}

impl Saving {
    pub open spec fn at(step: SaveStep) -> Saving {
        Saving { stage: SaveStage::Doing(step) }
    }

    pub open spec fn upcoming(self) -> Option<SaveStep> {
        match self.stage {
            SaveStage::Doing(step) => Some(step),
            _ => None,
        }
    }

    /// Saving after its next step, which worked or did not. Whatever does not work, the
    /// temporary file is removed.
    pub open spec fn resumed(self, worked: bool) -> Saving {
        match self.stage {
            SaveStage::Doing(SaveStep::RemoveTemporary) => Saving { stage: SaveStage::Failed },
            SaveStage::Doing(step) => if !worked {
                Saving::at(SaveStep::RemoveTemporary)
            } else {
                match step {
                    SaveStep::CreateTemporary => Saving::at(SaveStep::Write),
                    SaveStep::Write => Saving::at(SaveStep::Flush),
                    SaveStep::Flush => Saving::at(SaveStep::Sync),
                    SaveStep::Sync => Saving::at(SaveStep::Replace),
                    _ => Saving { stage: SaveStage::Saved },
                }
            },
            _ => self,
        }
    }

    pub fn new() -> (saving: Saving)
        ensures
            saving == Saving::at(SaveStep::CreateTemporary),
    {
        Saving { stage: SaveStage::Doing(SaveStep::CreateTemporary) }
    }

    pub fn next_step(&self) -> (step: Option<SaveStep>)
        ensures
            step == self.upcoming(),
    {
        match self.stage {
            SaveStage::Doing(step) => Some(step),
            _ => None,
        }
    }

    /// Takes in whether the step worked.
    pub fn resume(&mut self, worked: bool)
        ensures
            *final(self) == old(self).resumed(worked),
    {
        self.stage = match self.stage {
            SaveStage::Doing(SaveStep::RemoveTemporary) => SaveStage::Failed,
            SaveStage::Doing(step) => if !worked {
                SaveStage::Doing(SaveStep::RemoveTemporary)
            } else {
                match step {
                    SaveStep::CreateTemporary => SaveStage::Doing(SaveStep::Write),
                    SaveStep::Write => SaveStage::Doing(SaveStep::Flush),
                    SaveStep::Flush => SaveStage::Doing(SaveStep::Sync),
                    SaveStep::Sync => SaveStage::Doing(SaveStep::Replace),
                    _ => SaveStage::Saved,
                }
            },
            other => other,
        };
    }
}

/// The two files while the text `text` is saved.
pub struct SaveWorld {
    pub saving: Saving,
    /// What the file holds, if it is there.
    pub file: Option<Seq<char>>,
    /// What the temporary file holds, if it is there.
    pub temporary: Option<Seq<char>>,
}

impl SaveWorld {
    /// The next step leads from `self` to `next`. A step on the temporary file that does not
    /// work may leave anything there. Taking the place of the old file is done at once or not
    /// at all.
    pub open spec fn leads_to(self, text: Seq<char>, next: SaveWorld) -> bool {
        exists|worked: bool| #[trigger] self.steps(text, worked, next)
    }

    pub open spec fn steps(self, text: Seq<char>, worked: bool, next: SaveWorld) -> bool {
        &&& self.saving.upcoming() matches Some(step)
        &&& next.saving == self.saving.resumed(worked)
        &&& match step {
            SaveStep::CreateTemporary => next.file == self.file && (worked ==> next.temporary
                == Some(Seq::<char>::empty())),
            SaveStep::Write => next.file == self.file && (worked ==> next.temporary == Some(text)),
            SaveStep::Flush => next.file == self.file && (worked ==> next.temporary
                == self.temporary),
            SaveStep::Sync => next.file == self.file && (worked ==> next.temporary
                == self.temporary),
            SaveStep::Replace => if worked {
                next.file == self.temporary && next.temporary is None
            } else {
                next.file == self.file && next.temporary == self.temporary
            },
            SaveStep::RemoveTemporary => next.file == self.file && (worked ==> next.temporary
                is None),
        }
    }
}

/// A course of saving `text` over `old`.
pub open spec fn save_course(
    worlds: Seq<SaveWorld>,
    old_text: Option<Seq<char>>,
    text: Seq<char>,
) -> bool {
    &&& worlds.len() > 0
    &&& worlds[0].saving == Saving::at(SaveStep::CreateTemporary)
    &&& worlds[0].file == old_text
    &&& forall|i: int|
        #![trigger worlds[i]]
        0 <= i < worlds.len() - 1 ==> worlds[i].leads_to(text, worlds[i + 1])
}

/// Whenever saving is cut short, the file holds the whole old text or the whole new one. Where
/// it says that it worked, the file holds the new text and the temporary file is gone; where
/// it says that it failed, the file holds the old text.
pub proof fn law_saving_is_all_or_nothing(
    worlds: Seq<SaveWorld>,
    old_text: Option<Seq<char>>,
    text: Seq<char>,
    at: int,
)
    requires
        save_course(worlds, old_text, text),
        0 <= at < worlds.len(),
    ensures
        worlds[at].file == old_text || worlds[at].file == Some(text),
        worlds[at].saving.stage == SaveStage::Saved ==> worlds[at].file == Some(text)
            && worlds[at].temporary is None,
        worlds[at].saving.stage != SaveStage::Saved ==> worlds[at].file == old_text,
        worlds[at].saving == Saving::at(SaveStep::Flush) || worlds[at].saving == Saving::at(
            SaveStep::Sync,
        ) || worlds[at].saving == Saving::at(SaveStep::Replace) ==> worlds[at].temporary == Some(
            text,
        ),
    decreases at,
{
    if at > 0 {
        law_saving_is_all_or_nothing(worlds, old_text, text, at - 1);
        assert(worlds[at - 1].leads_to(text, worlds[at]));
    }
}

/// Where saving failed and the temporary file could be removed, none is left.
pub proof fn law_failed_saving_leaves_no_file(
    world: SaveWorld,
    text: Seq<char>,
    next: SaveWorld,
)
    requires
        world.saving == Saving::at(SaveStep::RemoveTemporary),
        world.steps(text, true, next),
    ensures
        next.saving.stage == SaveStage::Failed,
        next.temporary is None,
        next.file == world.file,
{
}

/// What is said where such a file could be neither renamed nor copied.
pub fn backup_failure(rename_error: &str, copy_error: &str) -> (text: String)
    ensures
        text@ == "rename failed: "@ + rename_error@ + "; copy failed: "@ + copy_error@,
{
    let mut text = joined_text("rename failed: ", rename_error, "; copy failed: ");
    append_text(&mut text, copy_error);
    text
}

/// A file of the program lies in a folder of the program's own, the same for all its files and right
/// below the user's application data; where that is not known it lies where the program was started.
pub proof fn law_files_lie_in_one_folder(
    base: Seq<char>,
    other_base: Seq<char>,
    file: Seq<char>,
    other: Seq<char>,
)
    ensures
        way_to(Some(base), file).len() == 3,
        way_to(Some(base), file).first() == base,
        way_to(Some(base), file).last() == file,
        way_to(Some(base), file)[1] == way_to(Some(other_base), other)[1],
        way_to(None, file).len() == 1,
        way_to(None, file).first() == file,
{
}

/// Saving takes its steps one after another and skips none: the text takes the place of the old one
/// only after it was written, flushed and synced, in this order, and all of that worked. Whatever does
/// not work leads to the removal of the temporary file, and only then has saving failed.
pub proof fn law_saving_skips_no_step(saving: Saving, worked: bool)
    requires
        saving.upcoming() is Some,
    ensures
        ({
            let next = saving.resumed(worked);
            &&& next.stage == SaveStage::Saved <==> saving == Saving::at(SaveStep::Replace) && worked
            &&& next == Saving::at(SaveStep::Replace) <==> saving == Saving::at(SaveStep::Sync)
                && worked
            &&& next == Saving::at(SaveStep::Sync) <==> saving == Saving::at(SaveStep::Flush) && worked
            &&& next == Saving::at(SaveStep::Flush) <==> saving == Saving::at(SaveStep::Write)
                && worked
            &&& next == Saving::at(SaveStep::Write) <==> saving == Saving::at(
                SaveStep::CreateTemporary,
            ) && worked
            &&& next == Saving::at(SaveStep::RemoveTemporary) <==> saving != Saving::at(
                SaveStep::RemoveTemporary,
            ) && !worked
            &&& next.stage == SaveStage::Failed <==> saving == Saving::at(SaveStep::RemoveTemporary)
        }),
{
}

/// The name of a file can be told from the name it is kept under and from the one it is written under.
pub proof fn law_names_keep_the_file_name(
    file: Seq<char>,
    timestamp: u64,
    suffix: u32,
    pid: u32,
    sequence: u64,
)
    ensures
        file.is_prefix_of(backup_name(file, timestamp, suffix)),
        backup_name(file, timestamp, suffix) != file,
        temporary_name(file, pid, sequence).subrange(1, 1 + file.len() as int) == file,
        temporary_name(file, pid, sequence).len() > file.len() + 4,
{
    reveal_strlit(".");
    reveal_strlit(".tmp");
    reveal_strlit(".corrupt-");
    assert(file =~= backup_name(file, timestamp, suffix).take(file.len() as int));
    assert(backup_name(file, timestamp, suffix).len() > file.len());
    assert(temporary_name(file, pid, sequence).subrange(1, 1 + file.len() as int) =~= file);
}

} // verus!
