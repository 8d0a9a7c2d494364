//! The progress panel's state: visibility, the latest snapshot or final
//! statistics, cancellability, and the rendered status texts.

use vstd::prelude::*;

use crate::progress::ProcessingProgress;
use crate::progress::ProcessingStats;
use crate::text::digit_str;
use crate::text::spec_decimal;
use crate::text::spec_digit_char;
use crate::text::u64_to_string;
use crate::text::usize_to_string;

verus! {

/// A percentage in hundredths rendered with one decimal place, as in `50.0`.
pub open spec fn spec_percent_text(pct: int) -> Seq<char> {
    spec_decimal((pct / 100) as nat) + seq!['.'] + seq![spec_digit_char((pct % 100) / 10)]
}

/// The progress line: counts and percentage while running, the final tally
/// once complete, and a placeholder before anything happened.
pub open spec fn spec_progress_text(v: ProgressView) -> Seq<char> {
    match v.progress {
        Some(p) => "已处理: "@ + spec_decimal(p.processed_files as nat) + "/"@ + spec_decimal(
            p.total_files as nat,
        ) + " 文件 ("@ + spec_percent_text(p.percentage as int) + "%)"@,
        None => match v.stats {
            Some(s) => "完成: 成功 "@ + spec_decimal(s.files_succeeded as nat) + " | 失败 "@
                + spec_decimal(s.files_failed as nat) + " | 总计 "@ + spec_decimal(
                s.files_processed as nat,
            ),
            None => "准备中..."@,
        },
    }
}

/// The status line: the file in flight while running, the outcome once
/// complete, and a placeholder before anything happened.
pub open spec fn spec_status_message(v: ProgressView) -> Seq<char> {
    match v.progress {
        Some(p) => if p.current_file@.len() == 0 {
            "正在处理..."@
        } else {
            "正在处理: "@ + p.current_file@
        },
        None => match v.stats {
            Some(s) => if s.files_failed == 0 {
                "✓ 处理完成！所有文件都已成功处理。"@
            } else {
                "⚠ 处理完成，但有 "@ + spec_decimal(s.files_failed as nat) + " 个文件失败。"@
            },
            None => "等待开始..."@,
        },
    }
}

/// The duration line: seconds under a minute, minutes and seconds above.
pub open spec fn spec_duration_text(s: ProcessingStats) -> Seq<char> {
    let secs = s.total_duration / 1000;
    if secs < 60 {
        "耗时: "@ + spec_decimal(secs as nat) + " 秒"@
    } else {
        "耗时: "@ + spec_decimal((secs / 60) as nat) + " 分 "@ + spec_decimal((secs % 60) as nat)
            + " 秒"@
    }
}

/// What the progress panel shows: nothing, a live snapshot, or the final
/// statistics, together with whether cancelling is allowed.
#[derive(Debug)]
pub struct ProgressView {
    pub is_visible: bool,
    pub progress: Option<ProcessingProgress>,
    pub stats: Option<ProcessingStats>,
    pub can_cancel: bool,
}

impl ProgressView {
    /// A hidden panel with nothing to show and cancelling allowed.
    pub fn new() -> (v: ProgressView)
        ensures
            !v.is_visible,
            v.progress is None,
            v.stats is None,
            v.can_cancel,
    {
        ProgressView { is_visible: false, progress: None, stats: None, can_cancel: true }
    }

    /// Shows the panel.
    pub fn show(&mut self)
        ensures
            *final(self) == (ProgressView { is_visible: true, ..*old(self) }),
    {
        self.is_visible = true;
    }

    /// Hides the panel and forgets what it showed.
    pub fn hide_view(&mut self)
        ensures
            !final(self).is_visible,
            final(self).progress is None,
            final(self).stats is None,
            final(self).can_cancel == old(self).can_cancel,
    {
        self.is_visible = false;
        self.progress = None;
        self.stats = None;
    }

    /// Whether the panel is visible.
    pub fn is_visible(&self) -> (r: bool)
        ensures
            r == self.is_visible,
    {
        self.is_visible
    }

    /// Shows a fresh progress snapshot.
    pub fn update_progress(&mut self, progress: ProcessingProgress)
        ensures
            final(self).is_visible,
            final(self).progress == Some(progress),
            final(self).stats == old(self).stats,
            final(self).can_cancel == old(self).can_cancel,
    {
        self.progress = Some(progress);
        self.is_visible = true;
    }

    /// The snapshot being shown, if any.
    pub fn current_progress(&self) -> (r: Option<&ProcessingProgress>)
        ensures
            (r is Some) == (self.progress is Some),
            r matches Some(p) ==> self.progress matches Some(q) && *p == q,
    {
        self.progress.as_ref()
    }

    /// The shown percentage in hundredths of a percent, 0 with no snapshot.
    pub fn percentage(&self) -> (r: u32)
        ensures
            r == (match self.progress {
                Some(p) => p.percentage,
                None => 0u32,
            }),
    {
        match &self.progress {
            Some(p) => p.percentage,
            None => 0,
        }
    }

    /// The file currently in flight, if a snapshot is shown.
    pub fn current_file(&self) -> (r: Option<&str>)
        ensures
            (r is Some) == (self.progress is Some),
            r matches Some(f) ==> (self.progress matches Some(p) && f@ == p.current_file@),
    {
        match &self.progress {
            Some(p) => Some(p.current_file.as_str()),
            None => None,
        }
    }

    /// The processed count of the shown snapshot, 0 with none.
    pub fn processed_count(&self) -> (r: usize)
        ensures
            r == (match self.progress {
                Some(p) => p.processed_files,
                None => 0usize,
            }),
    {
        match &self.progress {
            Some(p) => p.processed_files,
            None => 0,
        }
    }

    /// The total count of the shown snapshot, 0 with none.
    pub fn total_count(&self) -> (r: usize)
        ensures
            r == (match self.progress {
                Some(p) => p.total_files,
                None => 0usize,
            }),
    {
        match &self.progress {
            Some(p) => p.total_files,
            None => 0,
        }
    }

    /// Shows the final statistics and drops the live snapshot.
    pub fn show_completion(&mut self, stats: ProcessingStats)
        ensures
            final(self).stats == Some(stats),
            final(self).progress is None,
            final(self).is_visible == old(self).is_visible,
            final(self).can_cancel == old(self).can_cancel,
    {
        self.stats = Some(stats);
        self.progress = None;
    }

    /// The final statistics, if shown.
    pub fn completion_stats(&self) -> (r: Option<&ProcessingStats>)
        ensures
            (r is Some) == (self.stats is Some),
            r matches Some(s) ==> self.stats matches Some(t) && *s == t,
    {
        self.stats.as_ref()
    }

    /// Whether the run being shown has completed.
    pub fn is_complete(&self) -> (r: bool)
        ensures
            r == (self.stats is Some),
    {
        match &self.stats {
            Some(_) => true,
            None => false,
        }
    }

    /// Allows or forbids cancelling.
    pub fn set_can_cancel(&mut self, can_cancel: bool)
        ensures
            *final(self) == (ProgressView { can_cancel, ..*old(self) }),
    {
        self.can_cancel = can_cancel;
    }

    /// Whether cancelling is possible right now: allowed, visible, and not
    /// yet complete.
    pub fn can_cancel(&self) -> (r: bool)
        ensures
            r == (self.can_cancel && self.is_visible && !(self.stats is Some)),
    {
        self.can_cancel && self.is_visible && !self.is_complete()
    }

    /// Puts the panel back in its initial state.
    pub fn reset(&mut self)
        ensures
            !final(self).is_visible,
            final(self).progress is None,
            final(self).stats is None,
            final(self).can_cancel,
    {
        self.is_visible = false;
        self.progress = None;
        self.stats = None;
        self.can_cancel = true;
    }

    /// Renders the progress line, exactly as [`spec_progress_text`] states.
    pub fn progress_text(&self) -> (r: String)
        ensures
            r@ == spec_progress_text(*self),
    {
        proof {
            reveal_strlit(".");
            assert("."@ =~= seq!['.']);
        }
        match &self.progress {
            Some(p) => {
                let mut s = "已处理: ".to_owned();
                s.append(usize_to_string(p.processed_files).as_str());
                s.append("/");
                s.append(usize_to_string(p.total_files).as_str());
                s.append(" 文件 (");
                s.append(u64_to_string((p.percentage / 100) as u64).as_str());
                s.append(".");
                s.append(digit_str(((p.percentage % 100) / 10) as u64));
                s.append("%)");
                s
            },
            None => {
                match &self.stats {
                    Some(st) => {
                        let mut s = "完成: 成功 ".to_owned();
                        s.append(usize_to_string(st.files_succeeded).as_str());
                        s.append(" | 失败 ");
                        s.append(usize_to_string(st.files_failed).as_str());
                        s.append(" | 总计 ");
                        s.append(usize_to_string(st.files_processed).as_str());
                        s
                    },
                    None => "准备中...".to_owned(),
                }
            },
        }
    }

    /// Renders the status line, exactly as [`spec_status_message`] states.
    pub fn status_message(&self) -> (r: String)
        ensures
            r@ == spec_status_message(*self),
    {
        match &self.progress {
            Some(p) => {
                if p.current_file.as_str().unicode_len() == 0 {
                    "正在处理...".to_owned()
                } else {
                    let mut s = "正在处理: ".to_owned();
                    s.append(p.current_file.as_str());
                    s
                }
            },
            None => {
                match &self.stats {
                    Some(st) => {
                        if st.files_failed == 0 {
                            "✓ 处理完成！所有文件都已成功处理。".to_owned()
                        } else {
                            let mut s = "⚠ 处理完成，但有 ".to_owned();
                            s.append(usize_to_string(st.files_failed).as_str());
                            s.append(" 个文件失败。");
                            s
                        }
                    },
                    None => "等待开始...".to_owned(),
                }
            },
        }
    }

    /// Renders the duration line once statistics are shown, exactly as
    /// [`spec_duration_text`] states.
    pub fn duration_text(&self) -> (r: Option<String>)
        ensures
            (r is Some) == (self.stats is Some),
            r matches Some(t) ==> (self.stats matches Some(s) && t@ == spec_duration_text(s)),
    {
        match &self.stats {
            Some(st) => {
                let secs = st.total_duration / 1000;
                if secs < 60 {
                    let mut s = "耗时: ".to_owned();
                    s.append(u64_to_string(secs).as_str());
                    s.append(" 秒");
                    Some(s)
                } else {
                    let mut s = "耗时: ".to_owned();
                    s.append(u64_to_string(secs / 60).as_str());
                    s.append(" 分 ");
                    s.append(u64_to_string(secs % 60).as_str());
                    s.append(" 秒");
                    Some(s)
                }
            },
            None => None,
        }
    }
}

impl Default for ProgressView {
    /// A hidden panel with nothing to show and cancelling allowed.
    fn default() -> (v: ProgressView)
        ensures
            !v.is_visible,
            v.progress is None,
            v.stats is None,
            v.can_cancel,
    {
        ProgressView::new()
    }
}

} // verus!
