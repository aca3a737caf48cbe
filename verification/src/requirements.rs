//! System requirements: which commands, libraries and directories the
//! host needs, and how much disk space. The runner reports what it
//! observed on the machine; this module decides which requirements are
//! met.

use vstd::prelude::*;
use crate::errors::ShellBeError;
use crate::strutil::concat2;
use crate::strutil::str_in;
use crate::strutil::vec_contains_str;
use crate::strutil::views_of;

verus! {

/// A copy of a vector of strings, view for view.
fn clone_strings(v: &Vec<String>) -> (r: Vec<String>)
    ensures
        views_of(r@) == views_of(v@),
{
    let mut out: Vec<String> = Vec::new();
    let mut i: usize = 0;
    while i < v.len()
        invariant
            i <= v@.len(),
            out@.len() == i,
            forall|j: int| 0 <= j < i ==> out@[j]@ == v@[j]@,
        decreases v@.len() - i,
    {
        out.push(v[i].clone());
        i += 1;
    }
    proof {
        assert(views_of(out@) =~= views_of(v@));
    }
    out
}

/// What the runner observed on the machine: which of the required
/// commands are on the PATH, which required libraries are present,
/// which required directories exist and are writable, and the free
/// space of the home directory — absent where it could not be
/// determined.
pub struct SystemObservations {
    /// Required commands found on the PATH.
    pub available_commands: Vec<String>,
    /// Required libraries found on the system.
    pub available_libraries: Vec<String>,
    /// Required directories that exist and are writable.
    pub writable_directories: Vec<String>,
    /// Free space of the home directory in megabytes, if measurable.
    pub home_disk_space_mb: Option<u64>,
}

/// One requirement and whether it is met.
pub struct RequirementCheck {
    /// The requirement's label.
    pub requirement: String,
    /// Whether it is met.
    pub ok: bool,
}

/// The failed requirements of a check list, each on its own line.
pub open spec fn spec_failed_suffix(checks: Seq<(Seq<char>, bool)>) -> Seq<char>
    decreases checks.len(),
{
    if checks.len() == 0 {
        Seq::empty()
    } else {
        spec_failed_suffix(checks.drop_last()) + (if checks.last().1 {
            Seq::<char>::empty()
        } else {
            "\n"@ + checks.last().0
        })
    }
}

/// The requirements the host makes of the machine.
pub struct SystemRequirements {
    required_commands: Vec<String>,
    required_libraries: Vec<String>,
    required_directories: Vec<String>,
    min_disk_space_mb: u64,
}

impl SystemRequirements {
    /// The required commands.
    pub closed spec fn spec_commands(&self) -> Seq<Seq<char>> {
        views_of(self.required_commands@)
    }

    /// The required libraries.
    pub closed spec fn spec_libraries(&self) -> Seq<Seq<char>> {
        views_of(self.required_libraries@)
    }

    /// The required directories.
    pub closed spec fn spec_directories(&self) -> Seq<Seq<char>> {
        views_of(self.required_directories@)
    }

    /// The disk-space floor in megabytes.
    pub closed spec fn spec_min_disk_space_mb(&self) -> u64 {
        self.min_disk_space_mb
    }

    /// A checker with custom requirements.
    pub fn new(
        required_commands: Vec<String>,
        required_libraries: Vec<String>,
        required_directories: Vec<String>,
        min_disk_space_mb: u64,
    ) -> (r: Self)
        ensures
            r.spec_commands() == views_of(required_commands@),
            r.spec_libraries() == views_of(required_libraries@),
            r.spec_directories() == views_of(required_directories@),
            r.spec_min_disk_space_mb() == min_disk_space_mb,
    {
        SystemRequirements {
            required_commands,
            required_libraries,
            required_directories,
            min_disk_space_mb,
        }
    }

    /// Every requirement of `self` is met by the observations.
    pub open spec fn spec_all_met(&self, obs: &SystemObservations) -> bool {
        &&& forall|i: int|
            0 <= i < self.spec_commands().len() ==> str_in(
                views_of(obs.available_commands@),
                #[trigger] self.spec_commands()[i],
            )
        &&& forall|i: int|
            0 <= i < self.spec_libraries().len() ==> str_in(
                views_of(obs.available_libraries@),
                #[trigger] self.spec_libraries()[i],
            )
        &&& forall|i: int|
            0 <= i < self.spec_directories().len() ==> str_in(
                views_of(obs.writable_directories@),
                #[trigger] self.spec_directories()[i],
            )
        &&& obs.home_disk_space_mb is Some
        &&& obs.home_disk_space_mb->0 >= self.spec_min_disk_space_mb()
    }

    /// The full check list: one labelled entry per requirement, in
    /// order — commands, libraries, directories, then disk space —
    /// each paired with whether the observations meet it.
    pub open spec fn spec_checks(&self, obs: &SystemObservations) -> Seq<(Seq<char>, bool)> {
        Seq::new(
            self.spec_commands().len(),
            |i: int|
                (
                    "command:"@ + self.spec_commands()[i],
                    str_in(views_of(obs.available_commands@), self.spec_commands()[i]),
                ),
        ) + Seq::new(
            self.spec_libraries().len(),
            |i: int|
                (
                    "library:"@ + self.spec_libraries()[i],
                    str_in(views_of(obs.available_libraries@), self.spec_libraries()[i]),
                ),
        ) + Seq::new(
            self.spec_directories().len(),
            |i: int|
                (
                    "directory:"@ + self.spec_directories()[i],
                    str_in(views_of(obs.writable_directories@), self.spec_directories()[i]),
                ),
        ) + seq![
            (
                "disk_space"@,
                obs.home_disk_space_mb is Some && obs.home_disk_space_mb->0
                    >= self.spec_min_disk_space_mb(),
            ),
        ]
    }

    /// Check every requirement against the observations, as
    /// `spec_checks` lists them: one labelled entry per required
    /// command, library and directory, each met exactly when the
    /// observations carry it, and one disk-space entry, met exactly
    /// when the measured space reaches the floor.
    pub fn check_all(&self, obs: &SystemObservations) -> (r: Vec<RequirementCheck>)
        ensures
            r@.len() == self.spec_checks(obs).len(),
            forall|k: int|
                0 <= k < r@.len() ==> (#[trigger] r@[k]).requirement@ == self.spec_checks(
                    obs,
                )[k].0 && r@[k].ok == self.spec_checks(obs)[k].1,
            (forall|k: int| 0 <= k < r@.len() ==> (#[trigger] r@[k]).ok) <==> self.spec_all_met(
                obs,
            ),
    {
        let mut out: Vec<RequirementCheck> = Vec::new();
        let mut i: usize = 0;
        while i < self.required_commands.len()
            invariant
                i <= self.required_commands@.len(),
                out@.len() == i,
                forall|k: int|
                    0 <= k < i ==> (#[trigger] out@[k]).ok == str_in(
                        views_of(obs.available_commands@),
                        self.spec_commands()[k],
                    ) && out@[k].requirement@ == "command:"@ + self.spec_commands()[k],
            decreases self.required_commands@.len() - i,
        {
            let ok = vec_contains_str(&obs.available_commands, self.required_commands[i].as_str());
            out.push(
                RequirementCheck {
                    requirement: concat2("command:", self.required_commands[i].as_str()),
                    ok,
                },
            );
            i += 1;
        }
        let ghost ncmd = out@.len();
        let mut j: usize = 0;
        while j < self.required_libraries.len()
            invariant
                j <= self.required_libraries@.len(),
                ncmd == self.spec_commands().len(),
                out@.len() == ncmd + j,
                forall|k: int|
                    0 <= k < ncmd ==> (#[trigger] out@[k]).ok == str_in(
                        views_of(obs.available_commands@),
                        self.spec_commands()[k],
                    ) && out@[k].requirement@ == "command:"@ + self.spec_commands()[k],
                forall|k: int|
                    0 <= k < j ==> (#[trigger] out@[ncmd + k]).ok == str_in(
                        views_of(obs.available_libraries@),
                        self.spec_libraries()[k],
                    ) && out@[ncmd + k].requirement@ == "library:"@ + self.spec_libraries()[k],
            decreases self.required_libraries@.len() - j,
        {
            let ok = vec_contains_str(
                &obs.available_libraries,
                self.required_libraries[j].as_str(),
            );
            out.push(
                RequirementCheck {
                    requirement: concat2("library:", self.required_libraries[j].as_str()),
                    ok,
                },
            );
            j += 1;
        }
        let ghost nlib = out@.len();
        let mut d: usize = 0;
        while d < self.required_directories.len()
            invariant
                d <= self.required_directories@.len(),
                ncmd == self.spec_commands().len(),
                nlib == ncmd + self.spec_libraries().len(),
                out@.len() == nlib + d,
                forall|k: int|
                    0 <= k < ncmd ==> (#[trigger] out@[k]).ok == str_in(
                        views_of(obs.available_commands@),
                        self.spec_commands()[k],
                    ) && out@[k].requirement@ == "command:"@ + self.spec_commands()[k],
                forall|k: int|
                    0 <= k < self.spec_libraries().len() ==> (#[trigger] out@[ncmd + k]).ok
                        == str_in(
                        views_of(obs.available_libraries@),
                        self.spec_libraries()[k],
                    ) && out@[ncmd + k].requirement@ == "library:"@ + self.spec_libraries()[k],
                forall|k: int|
                    0 <= k < d ==> (#[trigger] out@[nlib + k]).ok == str_in(
                        views_of(obs.writable_directories@),
                        self.spec_directories()[k],
                    ) && out@[nlib + k].requirement@ == "directory:"@
                        + self.spec_directories()[k],
            decreases self.required_directories@.len() - d,
        {
            let ok = vec_contains_str(
                &obs.writable_directories,
                self.required_directories[d].as_str(),
            );
            out.push(
                RequirementCheck {
                    requirement: concat2("directory:", self.required_directories[d].as_str()),
                    ok,
                },
            );
            d += 1;
        }
        let disk_ok = match obs.home_disk_space_mb {
            Some(mb) => mb >= self.min_disk_space_mb,
            None => false,
        };
        out.push(RequirementCheck { requirement: "disk_space".to_owned(), ok: disk_ok });
        proof {
            let checks = self.spec_checks(obs);
            assert(out@.len() == checks.len());
            assert forall|k: int|
                0 <= k < out@.len() implies (#[trigger] out@[k]).requirement@ == checks[k].0
                && out@[k].ok == checks[k].1 by {
                if k < ncmd {
                    assert(out@[k].requirement@ == "command:"@ + self.spec_commands()[k]);
                    assert(out@[k].ok == str_in(
                        views_of(obs.available_commands@),
                        self.spec_commands()[k],
                    ));
                } else if k < nlib {
                    assert(out@[ncmd + (k - ncmd)].requirement@ == "library:"@
                        + self.spec_libraries()[k - ncmd]);
                    assert(out@[ncmd + (k - ncmd)].ok == str_in(
                        views_of(obs.available_libraries@),
                        self.spec_libraries()[k - ncmd],
                    ));
                } else if k < out@.len() - 1 {
                    assert(out@[nlib + (k - nlib)].requirement@ == "directory:"@
                        + self.spec_directories()[k - nlib]);
                    assert(out@[nlib + (k - nlib)].ok == str_in(
                        views_of(obs.writable_directories@),
                        self.spec_directories()[k - nlib],
                    ));
                }
            }
        }
        proof {
            if forall|k: int| 0 <= k < out@.len() ==> (#[trigger] out@[k]).ok {
                assert forall|i2: int|
                    0 <= i2 < self.spec_commands().len() implies str_in(
                    views_of(obs.available_commands@),
                    #[trigger] self.spec_commands()[i2],
                ) by {
                    assert(out@[i2].ok);
                }
                assert forall|i2: int|
                    0 <= i2 < self.spec_libraries().len() implies str_in(
                    views_of(obs.available_libraries@),
                    #[trigger] self.spec_libraries()[i2],
                ) by {
                    assert(out@[ncmd + i2].ok);
                }
                assert forall|i2: int|
                    0 <= i2 < self.spec_directories().len() implies str_in(
                    views_of(obs.writable_directories@),
                    #[trigger] self.spec_directories()[i2],
                ) by {
                    assert(out@[nlib + i2].ok);
                }
                assert(out@[out@.len() - 1].ok);
            }
            if self.spec_all_met(obs) {
                assert forall|k: int| 0 <= k < out@.len() implies (#[trigger] out@[k]).ok by {
                    if k < ncmd {
                        assert(out@[k].ok == str_in(
                            views_of(obs.available_commands@),
                            self.spec_commands()[k],
                        ));
                    } else if k < nlib {
                        assert(out@[ncmd + (k - ncmd)].ok == str_in(
                            views_of(obs.available_libraries@),
                            self.spec_libraries()[k - ncmd],
                        ));
                    } else if k < out@.len() - 1 {
                        assert(out@[nlib + (k - nlib)].ok == str_in(
                            views_of(obs.writable_directories@),
                            self.spec_directories()[k - nlib],
                        ));
                    }
                }
            }
        }
        out
    }

    /// Are all requirements met? Exactly when every required command,
    /// library and directory was observed and the measured disk space
    /// reaches the floor; the error message names every failed
    /// requirement, one per line.
    pub fn all_requirements_met(&self, obs: &SystemObservations) -> (r: Result<(), ShellBeError>)
        ensures
            r is Ok <==> self.spec_all_met(obs),
            r is Err ==> r->Err_0 is SystemRequirement && r->Err_0->SystemRequirement_0@
                == "System requirements not met:"@ + spec_failed_suffix(self.spec_checks(obs)),
    {
        let results = self.check_all(obs);
        let ghost checks = self.spec_checks(obs);
        let mut failed = String::new();
        let mut k: usize = 0;
        let mut all_ok: bool = true;
        proof {
            assert(checks.subrange(0, 0) =~= Seq::<(Seq<char>, bool)>::empty());
        }
        while k < results.len()
            invariant
                k <= results@.len(),
                results@.len() == checks.len(),
                checks == self.spec_checks(obs),
                forall|g: int|
                    0 <= g < results@.len() ==> (#[trigger] results@[g]).requirement@
                        == checks[g].0 && results@[g].ok == checks[g].1,
                all_ok <==> forall|g: int| 0 <= g < k ==> (#[trigger] results@[g]).ok,
                failed@ == spec_failed_suffix(checks.subrange(0, k as int)),
            decreases results@.len() - k,
        {
            proof {
                assert(checks.subrange(0, k + 1).drop_last() =~= checks.subrange(0, k as int));
                assert(checks.subrange(0, k + 1).last() == checks[k as int]);
            }
            if !results[k].ok {
                all_ok = false;
                failed.append("\n");
                failed.append(results[k].requirement.as_str());
                proof {
                    assert(failed@ =~= spec_failed_suffix(checks.subrange(0, k + 1)));
                }
            } else {
                proof {
                    assert(spec_failed_suffix(checks.subrange(0, k + 1)) =~= spec_failed_suffix(
                        checks.subrange(0, k as int),
                    ));
                }
            }
            k += 1;
        }
        proof {
            assert(checks.subrange(0, checks.len() as int) =~= checks);
        }
        if all_ok {
            Ok(())
        } else {
            let msg = concat2("System requirements not met:", failed.as_str());
            Err(ShellBeError::SystemRequirement(msg))
        }
    }

    /// The required commands, for the runner's probes.
    pub fn required_commands(&self) -> (r: Vec<String>)
        ensures
            views_of(r@) == self.spec_commands(),
    {
        clone_strings(&self.required_commands)
    }

    /// The required libraries, for the runner's probes.
    pub fn required_libraries(&self) -> (r: Vec<String>)
        ensures
            views_of(r@) == self.spec_libraries(),
    {
        clone_strings(&self.required_libraries)
    }

    /// The required directories, for the runner's probes.
    pub fn required_directories(&self) -> (r: Vec<String>)
        ensures
            views_of(r@) == self.spec_directories(),
    {
        clone_strings(&self.required_directories)
    }

    /// Add a required command.
    pub fn add_required_command(&mut self, command: &str)
        ensures
            final (self).spec_commands() =~= old(self).spec_commands().push(command@),
            final (self).spec_libraries() == old(self).spec_libraries(),
            final (self).spec_directories() == old(self).spec_directories(),
            final (self).spec_min_disk_space_mb() == old(self).spec_min_disk_space_mb(),
    {
        self.required_commands.push(command.to_owned());
    }

    /// Add a required library.
    pub fn add_required_library(&mut self, library: &str)
        ensures
            final (self).spec_libraries() =~= old(self).spec_libraries().push(library@),
            final (self).spec_commands() == old(self).spec_commands(),
            final (self).spec_directories() == old(self).spec_directories(),
            final (self).spec_min_disk_space_mb() == old(self).spec_min_disk_space_mb(),
    {
        self.required_libraries.push(library.to_owned());
    }

    /// Add a required directory.
    pub fn add_required_directory(&mut self, directory: &str)
        ensures
            final (self).spec_directories() =~= old(self).spec_directories().push(directory@),
            final (self).spec_commands() == old(self).spec_commands(),
            final (self).spec_libraries() == old(self).spec_libraries(),
            final (self).spec_min_disk_space_mb() == old(self).spec_min_disk_space_mb(),
    {
        self.required_directories.push(directory.to_owned());
    }

    /// Set the disk-space floor.
    pub fn set_min_disk_space_mb(&mut self, min_disk_space_mb: u64)
        ensures
            final (self).spec_min_disk_space_mb() == min_disk_space_mb,
            final (self).spec_commands() == old(self).spec_commands(),
            final (self).spec_libraries() == old(self).spec_libraries(),
            final (self).spec_directories() == old(self).spec_directories(),
    {
        self.min_disk_space_mb = min_disk_space_mb;
    }
}

impl Default for SystemRequirements {
    /// The default requirements: the SSH tools and git on the PATH,
    /// and ten megabytes of free space.
    fn default() -> (r: Self)
        ensures
            r.spec_commands() =~= seq!["ssh"@, "ssh-keygen"@, "ssh-copy-id"@, "git"@],
            r.spec_libraries() =~= Seq::<Seq<char>>::empty(),
            r.spec_directories() =~= Seq::<Seq<char>>::empty(),
            r.spec_min_disk_space_mb() == 10u64,
    {
        let mut required_commands: Vec<String> = Vec::new();
        required_commands.push("ssh".to_owned());
        required_commands.push("ssh-keygen".to_owned());
        required_commands.push("ssh-copy-id".to_owned());
        required_commands.push("git".to_owned());
        SystemRequirements {
            required_commands,
            required_libraries: Vec::new(),
            required_directories: Vec::new(),
            min_disk_space_mb: 10,
        }
    }
}

} // verus!
