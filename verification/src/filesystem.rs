//! Where each task keeps its files, and how a finished download is named.
//!
//! Every task has a scratch directory named after its identifier, with a `data`
//! directory for the tool's output and a `log` directory for what the tool
//! printed. A finished download moves to the output directory under a name made
//! from its title.

use std::sync::Arc;
use vstd::prelude::*;
use vstd::relations::injective_on;
use vstd::set_lib::{lemma_int_range, lemma_len_subset, lemma_map_size, set_int_range};
use vstd::string::StringExecFns;
use crate::env::ytdlp::is_format;
use crate::env::EnvironmentManager;
use crate::platform::{hyphenated_id, id_to_text};
use crate::task::Task;
use crate::text::{
    joined,
    contains_text,
    decimal_text,
    file_extension,
    file_stem,
    format_decimal,
    join_path,
    joined_path,
    lemma_decimal_text_injective,
    lemma_decimal_text_len,
    lemma_stem_and_extension_len,
    split_file_name,
};

verus! {

/// What `filenamify::filenamify` makes of `input`: the text with every run of
/// characters that a file name cannot hold replaced by `_`.
pub uninterp spec fn filenamified(input: Seq<char>) -> Seq<char>;

/// Makes a text safe to use as a file name, with `filenamify::filenamify`.
///
/// Believed, not proved: the result is [`filenamified`] of the input, that is,
/// it depends on the input alone.
#[verifier::external_body]
pub(crate) fn filenamify(input: &str) -> (name: String)
    ensures
        name@ == filenamified(input@),
{
    filenamify::filenamify(input)
}

/// The paths of one run.
#[derive(Debug)]
pub struct FilesystemDriver {
    env: Arc<EnvironmentManager>,
}

/// The scratch directory of task `task_id` under `worker_dir`.
pub open spec fn worker_root_dir(worker_dir: Seq<char>, task_id: u128) -> Seq<char> {
    joined_path(worker_dir, hyphenated_id(task_id))
}

/// The directory of the tool's output for task `task_id`.
pub open spec fn worker_data_dir(worker_dir: Seq<char>, task_id: u128) -> Seq<char> {
    joined_path(worker_root_dir(worker_dir, task_id), "data"@)
}

/// The directory of the logs of task `task_id`.
pub open spec fn worker_log_dir(worker_dir: Seq<char>, task_id: u128) -> Seq<char> {
    joined_path(worker_root_dir(worker_dir, task_id), "log"@)
}

/// The name under which a download is offered: `safe_name`, a dot, and the last
/// extension of the file that the tool produced for a format with extension
/// `ext`.
pub open spec fn output_name(safe_name: Seq<char>, ext: Seq<char>) -> Seq<char> {
    safe_name + "."@ + file_extension("main."@ + ext)
}

/// The text that names a download before it is made safe: its title, or its URL
/// if it has no title.
pub open spec fn display_name(title: Seq<char>, url: Seq<char>) -> Seq<char> {
    if title.len() == 0 {
        url
    } else {
        title
    }
}

/// The `n`-th name to try for a file called `name`: the name itself, then the
/// name with ` (1)`, ` (2)` and so on behind its stem.
pub open spec fn candidate_name(name: Seq<char>, n: nat) -> Seq<char> {
    if n == 0 {
        name
    } else {
        file_stem(name) + " ("@ + decimal_text(n) + ")."@ + file_extension(name)
    }
}

/// Whether `name` is among `taken`.
pub open spec fn is_taken(taken: Seq<String>, name: Seq<char>) -> bool {
    exists|i: int| 0 <= i < taken.len() && (#[trigger] taken[i])@ == name
}

/// The `n`-th name to try for a file called `name`.
pub fn nth_candidate_name(name: &str, n: u64) -> (candidate: String)
    ensures
        candidate@ == candidate_name(name@, n as nat),
{
    if n == 0 {
        return name.to_owned();
    }
    let (stem, extension) = split_file_name(name);
    let number = format_decimal(n);
    let mut candidate = stem;
    candidate.append(" (");
    candidate.append(number.as_str());
    candidate.append(").");
    candidate.append(extension.as_str());
    candidate
}

/// The names to try for one file differ from each other.
pub proof fn lemma_candidates_differ(name: Seq<char>, m: nat, k: nat)
    requires
        m != k,
    ensures
        candidate_name(name, m) != candidate_name(name, k),
{
    reveal_strlit(" (");
    reveal_strlit(").");
    lemma_stem_and_extension_len(name);
    lemma_decimal_text_len(m);
    lemma_decimal_text_len(k);
    if m != 0 && k != 0 {
        let head = file_stem(name) + " ("@;
        let tail = ")."@ + file_extension(name);
        let a = candidate_name(name, m);
        let b = candidate_name(name, k);
        assert(a =~= head + decimal_text(m) + tail);
        assert(b =~= head + decimal_text(k) + tail);
        if a == b {
            assert(decimal_text(m).len() == decimal_text(k).len());
            assert(decimal_text(m) =~= a.subrange(
                head.len() as int,
                (head.len() + decimal_text(m).len()) as int,
            ));
            assert(decimal_text(k) =~= b.subrange(
                head.len() as int,
                (head.len() + decimal_text(k).len()) as int,
            ));
            lemma_decimal_text_injective(m, k);
        }
    }
}

/// Of the names to try for one file, the first as many as there are taken
/// names, and one more, are not all taken.
pub proof fn lemma_some_candidate_is_free(name: Seq<char>, taken: Seq<String>)
    ensures
        exists|m: nat| m <= taken.len() && !is_taken(taken, #[trigger] candidate_name(name, m)),
{
    if forall|m: nat| m <= taken.len() ==> is_taken(taken, #[trigger] candidate_name(name, m)) {
        let n = taken.len() as int;
        let candidates = set_int_range(0, n + 1);
        lemma_int_range(0, n + 1);
        let f = |i: int| candidate_name(name, i as nat);
        let image = candidates.map(f);
        assert(injective_on(f, candidates)) by {
            assert forall|x1: int, x2: int|
                candidates.contains(x1) && candidates.contains(x2) && #[trigger] f(x1)
                    == #[trigger] f(x2) implies x1 == x2 by {
                if x1 != x2 {
                    lemma_candidates_differ(name, x1 as nat, x2 as nat);
                }
            }
        }
        lemma_map_size(candidates, image, f);
        let names = taken.map_values(|s: String| s@);
        names.lemma_cardinality_of_set();
        assert(image.subset_of(names.to_set())) by {
            assert forall|c: Seq<char>| image.contains(c) implies names.to_set().contains(c) by {
                let i = choose|i: int| candidates.contains(i) && c == f(i);
                assert(is_taken(taken, candidate_name(name, i as nat)));
                let j = choose|j: int| 0 <= j < taken.len() && (#[trigger] taken[j])@ == c;
                assert(names[j] == c);
            }
        }
        lemma_len_subset(image, names.to_set());
        assert(false);
    }
}

/// Picks the name for a new file in a directory that holds the files `taken`:
/// `wanted_name` if it is free, else the first of `stem (1).ext`,
/// `stem (2).ext`, and so on, that is free.
pub fn pick_free_file_name(wanted_name: &str, taken: &Vec<String>) -> (picked: String)
    ensures
        exists|n: nat|
            {
                &&& picked@ == #[trigger] candidate_name(wanted_name@, n)
                &&& !is_taken(taken@, picked@)
                &&& forall|m: nat|
                    m < n ==> is_taken(taken@, #[trigger] candidate_name(wanted_name@, m))
            },
{
    let mut i: usize = 0;
    loop
        invariant
            i <= taken.len(),
            forall|m: nat| m < i ==> is_taken(taken@, #[trigger] candidate_name(wanted_name@, m)),
        decreases taken.len() - i,
    {
        let candidate = nth_candidate_name(wanted_name, i as u64);
        if !contains_text(taken, candidate.as_str()) {
            assert(candidate@ == candidate_name(wanted_name@, i as nat));
            return candidate;
        }
        proof {
            if i == taken.len() {
                lemma_some_candidate_is_free(wanted_name@, taken@);
                let free = choose|m: nat|
                    m <= taken.len() && !is_taken(
                        taken@,
                        #[trigger] candidate_name(wanted_name@, m),
                    );
                assert(is_taken(taken@, candidate_name(wanted_name@, free)));
            }
        }
        i += 1;
    }
}

/// The name under which a download is offered, given its name made safe and its
/// format's extension.
pub fn output_file_name_from(safe_name: &str, ext: &str) -> (name: String)
    ensures
        name@ == output_name(safe_name@, ext@),
{
    let produced = joined("main.", ext);
    let (_, extension) = split_file_name(produced.as_str());
    let mut name = safe_name.to_owned();
    name.append(".");
    name.append(extension.as_str());
    name
}

impl FilesystemDriver {
    pub fn new(env: Arc<EnvironmentManager>) -> (fs: FilesystemDriver)
        ensures
            fs.env() == env,
    {
        FilesystemDriver { env }
    }

    /// The environment whose paths these are.
    pub closed spec fn env(&self) -> Arc<EnvironmentManager> {
        self.env
    }

    /// The downloader tool's configuration.
    pub fn ytdlp(&self) -> (ytdlp: &crate::env::YtdlpConfig)
        ensures
            *ytdlp == *self.env().ytdlp,
    {
        &self.env.ytdlp
    }

    /// The directories that must exist before the server starts, in the order in
    /// which they are made: the worker directory, the output directory, and the
    /// directory that holds the database file.
    pub fn init_directories(&self) -> (dirs: Vec<String>)
        ensures
            dirs@.len() == 3,
            dirs[0]@ == self.env().paths.worker_dir@,
            dirs[1]@ == self.env().paths.output_dir@,
            dirs[2]@ == crate::text::parent_path(self.env().paths.database_file@),
    {
        let mut dirs: Vec<String> = Vec::new();
        dirs.push(self.env.paths.worker_dir.clone());
        dirs.push(self.env.paths.output_dir.clone());
        dirs.push(crate::text::parent_dir(self.env.paths.database_file.as_str()));
        dirs
    }

    pub fn get_database_file(&self) -> (file: &str)
        ensures
            file@ == self.env().paths.database_file@,
    {
        self.env.paths.database_file.as_str()
    }

    /// The scratch directory of task `task_id`.
    pub fn get_worker_root_dir_for_task(&self, task_id: u128) -> (dir: String)
        ensures
            dir@ == worker_root_dir(self.env().paths.worker_dir@, task_id),
    {
        let name = id_to_text(task_id);
        join_path(self.env.paths.worker_dir.as_str(), name.as_str())
    }

    /// The directory of the tool's output for task `task_id`.
    pub fn get_worker_data_dir_for_task(&self, task_id: u128) -> (dir: String)
        ensures
            dir@ == worker_data_dir(self.env().paths.worker_dir@, task_id),
    {
        let root = self.get_worker_root_dir_for_task(task_id);
        join_path(root.as_str(), "data")
    }

    /// The directory of the logs of task `task_id`.
    pub fn get_worker_log_dir_for_task(&self, task_id: u128) -> (dir: String)
        ensures
            dir@ == worker_log_dir(self.env().paths.worker_dir@, task_id),
    {
        let root = self.get_worker_root_dir_for_task(task_id);
        join_path(root.as_str(), "log")
    }

    /// The output template that the tool is given: `main` in the task's data
    /// directory, with the extension left to the tool.
    pub fn get_ytdlp_output_template(&self, task_id: u128) -> (template: String)
        ensures
            template@ == joined_path(
                worker_data_dir(self.env().paths.worker_dir@, task_id),
                "main.%(ext)s"@,
            ),
    {
        let data = self.get_worker_data_dir_for_task(task_id);
        join_path(data.as_str(), "main.%(ext)s")
    }

    /// The file that the tool produces for `task`: `main` in the task's data
    /// directory, with the extension of the task's format. The format must be on
    /// offer.
    pub fn get_ytdlp_output_file(&self, task: &Task) -> (file: String)
        requires
            self.env().ytdlp.offers(task.format@),
        ensures
            exists|i: int|
                is_format(self.env().ytdlp@.formats, task.format@, i) && file@ == joined_path(
                    worker_data_dir(self.env().paths.worker_dir@, task.task_id),
                    "main."@ + self.env().ytdlp@.formats[i].ext,
                ),
    {
        let format = self.env.ytdlp.get_format(task.format.as_str());
        let data = self.get_worker_data_dir_for_task(task.task_id);
        let name = joined("main.", format.ext.as_str());
        join_path(data.as_str(), name.as_str())
    }

    /// The file that holds what the tool printed to its standard output.
    pub fn get_ytdlp_stdout_file(&self, task_id: u128) -> (file: String)
        ensures
            file@ == joined_path(
                worker_log_dir(self.env().paths.worker_dir@, task_id),
                "stdout.log"@,
            ),
    {
        let log = self.get_worker_log_dir_for_task(task_id);
        join_path(log.as_str(), "stdout.log")
    }

    /// The file that holds what the tool printed to its standard error.
    pub fn get_ytdlp_stderr_file(&self, task_id: u128) -> (file: String)
        ensures
            file@ == joined_path(
                worker_log_dir(self.env().paths.worker_dir@, task_id),
                "stderr.log"@,
            ),
    {
        let log = self.get_worker_log_dir_for_task(task_id);
        join_path(log.as_str(), "stderr.log")
    }

    /// The name under which the download of `task` is offered in the output
    /// directory, before a free name is picked: the task's title, or its URL if
    /// it has none, made safe for a file name, with the last extension of the
    /// produced file. The task's format must be on offer.
    pub fn output_file_name(&self, task: &Task) -> (name: String)
        requires
            self.env().ytdlp.offers(task.format@),
        ensures
            exists|i: int|
                is_format(self.env().ytdlp@.formats, task.format@, i) && name@ == output_name(
                    filenamified(display_name(task.title@, task.url@)),
                    self.env().ytdlp@.formats[i].ext,
                ),
    {
        let filename_unsafe: &str = if task.title.as_str().unicode_len() == 0 {
            task.url.as_str()
        } else {
            task.title.as_str()
        };
        let filename = filenamify(filename_unsafe);
        let format = self.env.ytdlp.get_format(task.format.as_str());
        output_file_name_from(filename.as_str(), format.ext.as_str())
    }

    /// The name that the download of `task` gets in the output directory, with
    /// format number `i` as the task's format, if it is the `n`-th name that is
    /// tried.
    pub open spec fn offered_name(&self, task: Task, i: int, n: nat) -> Seq<char> {
        candidate_name(
            output_name(
                filenamified(display_name(task.title@, task.url@)),
                self.env().ytdlp@.formats[i].ext,
            ),
            n,
        )
    }

    /// Where the download of `task` moves from and to, given the names that are
    /// taken in the output directory: from the file that the tool produced to the
    /// first free name for it in the output directory.
    pub fn move_output_file(&self, task: &Task, taken: &Vec<String>) -> (paths: (String, String))
        requires
            self.env().ytdlp.offers(task.format@),
        ensures
            exists|i: int, n: nat|
                {
                    &&& is_format(self.env().ytdlp@.formats, task.format@, i)
                    &&& paths.0@ == joined_path(
                        worker_data_dir(self.env().paths.worker_dir@, task.task_id),
                        "main."@ + self.env().ytdlp@.formats[i].ext,
                    )
                    &&& paths.1@ == joined_path(
                        self.env().paths.output_dir@,
                        #[trigger] self.offered_name(*task, i, n),
                    )
                    &&& !is_taken(taken@, self.offered_name(*task, i, n))
                    &&& forall|m: nat|
                        m < n ==> is_taken(taken@, #[trigger] self.offered_name(*task, i, m))
                },
    {
        let name = self.output_file_name(task);
        let from = self.get_ytdlp_output_file(task);
        let ghost i = choose|i: int|
            is_format(self.env().ytdlp@.formats, task.format@, i) && name@ == output_name(
                filenamified(display_name(task.title@, task.url@)),
                self.env().ytdlp@.formats[i].ext,
            );
        proof {
            let b = choose|b: int|
                is_format(self.env().ytdlp@.formats, task.format@, b) && from@ == joined_path(
                    worker_data_dir(self.env().paths.worker_dir@, task.task_id),
                    "main."@ + self.env().ytdlp@.formats[b].ext,
                );
            if i < b {
                assert(self.env().ytdlp@.formats[i].id != task.format@);
            } else if b < i {
                assert(self.env().ytdlp@.formats[b].id != task.format@);
            }
        }
        let free = pick_free_file_name(name.as_str(), taken);
        let to = join_path(self.env.paths.output_dir.as_str(), free.as_str());
        proof {
            let n = choose|n: nat|
                {
                    &&& free@ == #[trigger] candidate_name(name@, n)
                    &&& !is_taken(taken@, free@)
                    &&& forall|m: nat| m < n ==> is_taken(taken@, #[trigger] candidate_name(name@, m))
                };
            assert(self.offered_name(*task, i, n) == free@);
            assert forall|m: nat| m < n implies is_taken(
                taken@,
                #[trigger] self.offered_name(*task, i, m),
            ) by {
                assert(self.offered_name(*task, i, m) == candidate_name(name@, m));
            }
        }
        (from, to)
    }
}

} // verus!
