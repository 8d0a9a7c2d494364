//! Selection and validation of the input and output directories. The file
//! system itself is probed by the caller, who passes its findings in as a
//! [`DirStatus`]; the decisions on those findings live here.

use vstd::prelude::*;

use crate::error::AppError;
use crate::pipeline::spec_is_xlsx_name;
use crate::pipeline::is_xlsx_name;

verus! {

/// What a probe of one path found: whether it exists, is a directory, can be
/// read, and can be written.
#[derive(Debug, Clone, Copy)]
pub struct DirStatus {
    pub exists: bool,
    pub is_dir: bool,
    pub readable: bool,
    pub writable: bool,
}

/// An input directory probe is acceptable when the path exists, is a
/// directory and can be read.
pub open spec fn input_dir_ok(s: DirStatus) -> bool {
    s.exists && s.is_dir && s.readable
}

/// An output directory probe is acceptable when the path is a directory and
/// can be written (the caller creates it first when it is missing).
pub open spec fn output_dir_ok(s: DirStatus) -> bool {
    s.is_dir && s.writable
}

/// Holds the chosen input and output directories, validating each choice
/// against what the caller's probe of the file system found.
#[derive(Debug)]
pub struct DirectorySelector {
    pub input_path: Option<String>,
    pub output_path: Option<String>,
}

impl DirectorySelector {
    /// Builds a selector with neither directory chosen.
    pub fn new() -> (s: DirectorySelector)
        ensures
            s.input_path is None,
            s.output_path is None,
    {
        DirectorySelector { input_path: None, output_path: None }
    }

    /// Chooses the input directory if the probe accepts it: the path must
    /// exist, be a directory and be readable, each failure with its own
    /// error carrying the path; on failure nothing changes.
    pub fn set_input_directory(&mut self, path: String, probe: &DirStatus) -> (r: Result<
        (),
        AppError,
    >)
        ensures
            (r is Ok) == input_dir_ok(*probe),
            r is Ok ==> final(self).input_path == Some(path) && final(self).output_path == old(
                self,
            ).output_path,
            r is Err ==> *final(self) == *old(self),
            !probe.exists ==> (r matches Err(e) && e matches AppError::DirectoryNotFound(p) && p
                == path),
            probe.exists && !probe.is_dir ==> (r matches Err(e) && e
                matches AppError::InvalidDirectory(p) && p == path),
            probe.exists && probe.is_dir && !probe.readable ==> (r matches Err(e) && e
                matches AppError::DirectoryNotReadable(p) && p == path),
    {
        if !probe.exists {
            return Err(AppError::DirectoryNotFound(path));
        }
        if !probe.is_dir {
            return Err(AppError::InvalidDirectory(path));
        }
        if !probe.readable {
            return Err(AppError::DirectoryNotReadable(path));
        }
        self.input_path = Some(path);
        Ok(())
    }

    /// Chooses the output directory if the probe accepts it: the path must be
    /// a directory (the caller creates a missing one before probing) and be
    /// writable; on failure nothing changes.
    pub fn set_output_directory(&mut self, path: String, probe: &DirStatus) -> (r: Result<
        (),
        AppError,
    >)
        ensures
            (r is Ok) == output_dir_ok(*probe),
            r is Ok ==> final(self).output_path == Some(path) && final(self).input_path == old(
                self,
            ).input_path,
            r is Err ==> *final(self) == *old(self),
            !probe.is_dir ==> (r matches Err(e) && e matches AppError::InvalidDirectory(p) && p
                == path),
            probe.is_dir && !probe.writable ==> (r matches Err(e) && e
                matches AppError::DirectoryNotWritable(p) && p == path),
    {
        if !probe.is_dir {
            return Err(AppError::InvalidDirectory(path));
        }
        if !probe.writable {
            return Err(AppError::DirectoryNotWritable(path));
        }
        self.output_path = Some(path);
        Ok(())
    }

    /// The chosen input directory.
    pub fn input_directory(&self) -> (r: Option<&String>)
        ensures
            (r is Some) == (self.input_path is Some),
            r matches Some(p) ==> self.input_path matches Some(q) && *p == q,
    {
        self.input_path.as_ref()
    }

    /// The chosen output directory.
    pub fn output_directory(&self) -> (r: Option<&String>)
        ensures
            (r is Some) == (self.output_path is Some),
            r matches Some(p) ==> self.output_path matches Some(q) && *p == q,
    {
        self.output_path.as_ref()
    }

    /// Forgets the input choice.
    pub fn clear_input_directory(&mut self)
        ensures
            final(self).input_path is None,
            final(self).output_path == old(self).output_path,
    {
        self.input_path = None;
    }

    /// Forgets the output choice.
    pub fn clear_output_directory(&mut self)
        ensures
            final(self).output_path is None,
            final(self).input_path == old(self).input_path,
    {
        self.output_path = None;
    }

    /// Forgets both choices.
    pub fn clear_all(&mut self)
        ensures
            final(self).input_path is None,
            final(self).output_path is None,
    {
        self.input_path = None;
        self.output_path = None;
    }

    /// Revalidates both chosen directories against fresh probes: a missing
    /// choice is a configuration error, and each probe is judged as when the
    /// choice was made.
    pub fn validate_directories(&self, input_probe: &DirStatus, output_probe: &DirStatus) -> (r:
        Result<(), AppError>)
        ensures
            (r is Ok) == (self.input_path is Some && self.output_path is Some && input_dir_ok(
                *input_probe,
            ) && output_dir_ok(*output_probe)),
            self.input_path is None ==> (r matches Err(e) && e is ConfigError),
            self.output_path is None && self.input_path is Some && input_dir_ok(*input_probe)
                ==> (r matches Err(e) && e is ConfigError),
    {
        match &self.input_path {
            None => {
                return Err(AppError::config_error("未选择输入目录"));
            },
            Some(path) => {
                if !input_probe.exists {
                    return Err(AppError::DirectoryNotFound(path.clone()));
                }
                if !input_probe.is_dir {
                    return Err(AppError::InvalidDirectory(path.clone()));
                }
                if !input_probe.readable {
                    return Err(AppError::DirectoryNotReadable(path.clone()));
                }
            },
        }
        match &self.output_path {
            None => {
                return Err(AppError::config_error("未选择输出目录"));
            },
            Some(path) => {
                if !output_probe.is_dir {
                    return Err(AppError::InvalidDirectory(path.clone()));
                }
                if !output_probe.writable {
                    return Err(AppError::DirectoryNotWritable(path.clone()));
                }
            },
        }
        Ok(())
    }

    /// Whether both directories have been chosen.
    pub fn is_ready(&self) -> (r: bool)
        ensures
            r == (self.input_path is Some && self.output_path is Some),
    {
        match (&self.input_path, &self.output_path) {
            (Some(_), Some(_)) => true,
            _ => false,
        }
    }

    /// The input choice as display text, or a placeholder when none is made.
    pub fn input_directory_display(&self) -> (r: String)
        ensures
            self.input_path matches Some(p) ==> r@ == p@,
            self.input_path is None ==> r@ == "未选择"@,
    {
        match &self.input_path {
            Some(p) => p.clone(),
            None => "未选择".to_owned(),
        }
    }

    /// The output choice as display text, or a placeholder when none is made.
    pub fn output_directory_display(&self) -> (r: String)
        ensures
            self.output_path matches Some(p) ==> r@ == p@,
            self.output_path is None ==> r@ == "未选择"@,
    {
        match &self.output_path {
            Some(p) => p.clone(),
            None => "未选择".to_owned(),
        }
    }

    /// Counts the eligible workbook files among the entries the caller listed
    /// in the chosen input directory; 0 when no input directory is chosen.
    #[verifier::loop_isolation(false)]
    pub fn count_input_files(&self, entries: &Vec<String>) -> (r: Result<usize, AppError>)
        ensures
            r matches Ok(n) ==> n == (if self.input_path is Some {
                crate::pipeline::views_of(entries@).filter(
                    |v: Seq<char>| spec_is_xlsx_name(v),
                ).len() as int
            } else {
                0int
            }),
            r is Ok,
    {
        if self.input_path.is_none() {
            return Ok(0);
        }
        let n = entries.len();
        let mut count: usize = 0;
        proof {
            assert(crate::pipeline::views_of(entries@.subrange(0, 0)).filter(
                |v: Seq<char>| spec_is_xlsx_name(v),
            ) =~= Seq::<Seq<char>>::empty());
        }
        let mut i: usize = 0;
        while i < n
            invariant
                i <= n,
                count <= i,
                count == crate::pipeline::views_of(entries@.subrange(0, i as int)).filter(
                    |v: Seq<char>| spec_is_xlsx_name(v),
                ).len(),
            decreases n - i,
        {
            let ghost pre = crate::pipeline::views_of(entries@.subrange(0, i as int));
            let ghost post = crate::pipeline::views_of(entries@.subrange(0, i as int + 1));
            proof {
                assert(post.drop_last() =~= pre);
                assert(post.last() == entries@[i as int]@);
                reveal_with_fuel(Seq::filter, 2);
            }
            if is_xlsx_name(entries[i].as_str()) {
                count += 1;
            }
            i += 1;
        }
        proof {
            assert(entries@.subrange(0, n as int) =~= entries@);
        }
        Ok(count)
    }

    /// An estimate of the free space at the output directory, in bytes; the
    /// simplified estimate reports the maximum when an output directory is
    /// chosen and 0 otherwise.
    pub fn check_output_space(&self) -> (r: Result<u64, AppError>)
        ensures
            r matches Ok(n) ==> n == (if self.output_path is Some {
                u64::MAX
            } else {
                0u64
            }),
            r is Ok,
    {
        match &self.output_path {
            Some(_) => Ok(u64::MAX),
            None => Ok(0),
        }
    }
}

impl Default for DirectorySelector {
    /// A selector with neither directory chosen.
    fn default() -> (s: DirectorySelector)
        ensures
            s.input_path is None,
            s.output_path is None,
    {
        DirectorySelector::new()
    }
}

} // verus!
