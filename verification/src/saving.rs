//! Writing the configuration file in steps.
//!
//! The new text goes into a file of its own first and is then renamed over the
//! configuration file, so that readers find the old configuration or the new one
//! and never a part of it.
use vstd::prelude::*;

use crate::config::{in_force, saving, Config, ConfigStore};

verus! {

/// What has to be done next to save a configuration.
#[derive(Debug, Clone, Copy, PartialEq, Eq, Structural)]
pub enum SaveStage {
    /// Make sure that there is a directory for the file.
    CreateDirectory,
    /// Turn the configuration into text.
    Serialize,
    /// Write the text next to the file.
    WriteTemp,
    /// Rename what was written over the file.
    Rename,
    /// Nothing.
    Finished,
}

impl SaveStage {
    pub open spec fn following(self) -> Self {
        match self {
            SaveStage::CreateDirectory => SaveStage::Serialize,
            SaveStage::Serialize => SaveStage::WriteTemp,
            SaveStage::WriteTemp => SaveStage::Rename,
            SaveStage::Rename | SaveStage::Finished => SaveStage::Finished,
        }
    }

    /// The stage after this one was carried out with the given outcome. The
    /// first that fails is the last.
    pub fn next(self, outcome: Result<(), String>) -> (r: Result<SaveStage, String>)
        ensures
            r == (match outcome {
                Ok(_) => Ok(self.following()),
                Err(e) => Err(e),
            }),
    {
        match outcome {
            Ok(()) => Ok(
                match self {
                    SaveStage::CreateDirectory => SaveStage::Serialize,
                    SaveStage::Serialize => SaveStage::WriteTemp,
                    SaveStage::WriteTemp => SaveStage::Rename,
                    SaveStage::Rename => SaveStage::Finished,
                    SaveStage::Finished => SaveStage::Finished,
                },
            ),
            Err(e) => Err(e),
        }
    }
}

/// The text of the configuration file and of the one next to it, where they
/// exist.
pub struct Disk {
    pub file: Option<Seq<char>>,
    pub temp: Option<Seq<char>>,
}

impl Disk {
    /// `after` is what carrying out a stage can leave behind: a failed write
    /// leaves anything in the other file, a failed rename changes nothing.
    pub open spec fn can_become(
        self,
        stage: SaveStage,
        text: Seq<char>,
        done: bool,
        after: Self,
    ) -> bool {
        match stage {
            SaveStage::WriteTemp => after.file == self.file && (done ==> after.temp == Some(text)),
            SaveStage::Rename => if done {
                after.file == self.temp
            } else {
                after == self
            },
            _ => after == self,
        }
    }
}

/// The stage that comes after `k` others.
pub open spec fn stage_at(k: nat) -> SaveStage
    decreases k,
{
    if k == 0 {
        SaveStage::CreateDirectory
    } else {
        stage_at((k - 1) as nat).following()
    }
}

/// `disks` is what the disk goes through while `text` is saved, one for each
/// stage that was begun and the one before them; `failed` tells that the last of
/// these stages was not done.
pub open spec fn save_run(disks: Seq<Disk>, text: Seq<char>, failed: bool) -> bool {
    &&& disks.len() > 0
    &&& failed ==> disks.len() > 1
    &&& forall|k: int|
        0 <= k < disks.len() - 1 ==> (#[trigger] disks[k]).can_become(
            stage_at(k as nat),
            text,
            !(failed && k == disks.len() - 2),
            disks[k + 1],
        )
}

/// Whether every stage was done.
pub open spec fn save_finished(disks: Seq<Disk>, failed: bool) -> bool {
    !failed && stage_at((disks.len() - 1) as nat) == SaveStage::Finished
}

proof fn lemma_save_run(disks: Seq<Disk>, text: Seq<char>, failed: bool)
    requires
        save_run(disks, text, failed),
    ensures
        ({
            let last = disks.last();
            let stage = stage_at((disks.len() - 1) as nat);
            &&& save_finished(disks, failed) ==> last.file == Some(text)
            &&& !save_finished(disks, failed) && stage_at((disks.len() - 1) as nat)
                != SaveStage::Finished ==> last.file == disks[0].file
            &&& failed && stage_at((disks.len() - 2) as nat) != SaveStage::Finished ==> last.file
                == disks[0].file
            &&& !failed && stage == SaveStage::Rename ==> last.temp == Some(text)
        }),
    decreases disks.len(),
{
    if disks.len() > 1 {
        let init = disks.drop_last();
        let n = disks.len() - 1;
        assert forall|k: int| 0 <= k < init.len() - 1 implies (#[trigger] init[k]).can_become(
            stage_at(k as nat),
            text,
            true,
            init[k + 1],
        ) by {
            assert(disks[k].can_become(stage_at(k as nat), text, true, disks[k + 1]));
        }
        assert(save_run(init, text, false));
        lemma_save_run(init, text, false);
        assert(disks[n - 1].can_become(stage_at((n - 1) as nat), text, !failed, disks[n]));
        assert(stage_at(n as nat) == stage_at((n - 1) as nat).following());
    }
}

/// Saving is all or nothing. Once every stage is done the file holds the new
/// text; as long as that is not so, because a stage failed or because the
/// program ended in between, it holds what it held before.
pub proof fn law_saving_is_all_or_nothing(disks: Seq<Disk>, text: Seq<char>, failed: bool)
    requires
        save_run(disks, text, failed),
        failed ==> stage_at((disks.len() - 2) as nat) != SaveStage::Finished,
    ensures
        disks.last().file == (if save_finished(disks, failed) {
            Some(text)
        } else {
            disks[0].file
        }),
{
    lemma_save_run(disks, text, failed);
}

/// A configuration that was saved is in force and in the file, and reading the
/// file again leaves it in force; one that could not be saved leaves the file
/// and the configuration in force as they were. This holds for every form of the
/// file that reads back as what was written.
pub proof fn law_saved_config_is_read_back(
    store: ConfigStore,
    cfg: Config,
    written: Result<(), String>,
    disks: Seq<Disk>,
    text: Seq<char>,
    parse: spec_fn(Seq<char>) -> Result<Config, String>,
    seen: Config,
)
    requires
        save_run(disks, text, written is Err),
        written is Err ==> stage_at((disks.len() - 2) as nat) != SaveStage::Finished,
        written is Ok ==> save_finished(disks, false),
        parse(text) matches Ok(c) && c.same_as(cfg),
    ensures
        ({
            let after = store.taking(saving(cfg, written));
            let file = disks.last().file;
            if written is Ok {
                &&& after.holds(cfg)
                &&& file == Some(text)
                &&& in_force(after.taking(parse(file->0)), seen) ==> seen.same_as(cfg)
            } else {
                after == store && file == disks[0].file
            }
        }),
{
    law_saving_is_all_or_nothing(disks, text, written is Err);
}

} // verus!
