//! Application configuration: the theme choice, history bounds and
//! parallelism settings, held in memory. Reading and writing the
//! configuration file is the caller's concern.

use vstd::prelude::*;

use crate::error::AppError;

verus! {

/// Relies on `num_cpus::get`: the number of logical CPUs available to the
/// process, documented to be at least 1.
#[verifier::external_body]
pub(crate) fn available_cpu_count() -> (r: usize)
    ensures
        1 <= r,
{
    num_cpus::get()
}

/// The user-interface theme choice.
#[derive(Debug, Clone, Copy, PartialEq, Eq, Structural)]
pub enum Theme {
    Light,
    Dark,
    System,
}

/// The application's settings: default directories, theme, history bound and
/// parallelism.
#[derive(Debug, Clone)]
pub struct AppConfig {
    pub default_input_dir: Option<String>,
    pub default_output_dir: Option<String>,
    pub theme: Theme,
    pub max_history_entries: usize,
    pub parallel_processing: bool,
    pub max_parallel_tasks: usize,
}

/// A configuration is acceptable when the history bound is positive and,
/// with parallel processing enabled, the task bound is positive too.
pub open spec fn spec_config_valid(c: AppConfig) -> bool {
    c.max_history_entries > 0 && (c.parallel_processing ==> c.max_parallel_tasks > 0)
}

impl Default for AppConfig {
    /// The defaults: no directories, light theme, 100 history entries,
    /// parallel processing on with a task bound between 2 and 8 taken from
    /// the machine's CPU count.
    fn default() -> (c: AppConfig)
        ensures
            c.default_input_dir is None,
            c.default_output_dir is None,
            c.theme == Theme::Light,
            c.max_history_entries == 100,
            c.parallel_processing,
            2 <= c.max_parallel_tasks <= 8,
            spec_config_valid(c),
    {
        let cpus = available_cpu_count();
        let raised = if cpus < 2 {
            2
        } else {
            cpus
        };
        let max_parallel_tasks = if raised > 8 {
            8
        } else {
            raised
        };
        AppConfig {
            default_input_dir: None,
            default_output_dir: None,
            theme: Theme::Light,
            max_history_entries: 100,
            parallel_processing: true,
            max_parallel_tasks,
        }
    }
}

impl AppConfig {
    /// Accepts the configuration or rejects it with a configuration error:
    /// the history bound must be positive, and so must the task bound when
    /// parallel processing is enabled.
    pub fn validate(&self) -> (r: Result<(), AppError>)
        ensures
            (r is Ok) == spec_config_valid(*self),
            r matches Err(e) ==> e is ConfigError,
    {
        if self.max_history_entries == 0 {
            return Err(AppError::config_error("最大历史记录条目数必须大于 0"));
        }
        if self.parallel_processing && self.max_parallel_tasks == 0 {
            return Err(AppError::config_error("最大并行任务数必须大于 0"));
        }
        Ok(())
    }
}

/// Holds the current configuration and the path it is persisted at; the
/// persistence itself (reading and writing the file) is the caller's.
#[derive(Debug)]
pub struct ConfigManager {
    pub config: AppConfig,
    pub config_path: String,
}

impl ConfigManager {
    /// Builds a manager over an already-loaded configuration.
    pub fn new(config: AppConfig, config_path: String) -> (m: ConfigManager)
        ensures
            m.config == config,
            m.config_path == config_path,
    {
        ConfigManager { config, config_path }
    }

    /// Replaces the configuration if the new one is valid; an invalid one is
    /// rejected and nothing changes.
    pub fn update_config(&mut self, config: AppConfig) -> (r: Result<(), AppError>)
        ensures
            (r is Ok) == spec_config_valid(config),
            r is Ok ==> final(self).config == config && final(self).config_path == old(
                self,
            ).config_path,
            r is Err ==> *final(self) == *old(self),
    {
        let check = config.validate();
        match check {
            Ok(_) => {
                self.config = config;
                Ok(())
            },
            Err(e) => Err(e),
        }
    }

    /// Puts the defaults back.
    pub fn reset_to_default(&mut self) -> (r: Result<(), AppError>)
        ensures
            r is Ok,
            final(self).config_path == old(self).config_path,
            final(self).config.default_input_dir is None,
            final(self).config.default_output_dir is None,
            final(self).config.theme == Theme::Light,
            final(self).config.max_history_entries == 100,
            final(self).config.parallel_processing,
            2 <= final(self).config.max_parallel_tasks <= 8,
    {
        self.config = AppConfig::default();
        Ok(())
    }

    /// The current configuration.
    pub fn config(&self) -> (r: &AppConfig)
        ensures
            *r == self.config,
    {
        &self.config
    }

    /// The current configuration, under the older accessor name.
    pub fn get_config(&self) -> (r: &AppConfig)
        ensures
            *r == self.config,
    {
        &self.config
    }

    /// The current configuration, mutably.
    pub fn config_mut(&mut self) -> (r: &mut AppConfig)
        ensures
            *r == old(self).config,
            final(self).config == *final(r),
            final(self).config_path == old(self).config_path,
    {
        &mut self.config
    }

    /// Sets the default input directory.
    pub fn set_default_input_dir(&mut self, dir: Option<String>) -> (r: Result<(), AppError>)
        ensures
            r is Ok,
            *final(self) == (ConfigManager {
                config: AppConfig { default_input_dir: dir, ..old(self).config },
                ..*old(self)
            }),
    {
        self.config.default_input_dir = dir;
        Ok(())
    }

    /// Sets the default output directory.
    pub fn set_default_output_dir(&mut self, dir: Option<String>) -> (r: Result<(), AppError>)
        ensures
            r is Ok,
            *final(self) == (ConfigManager {
                config: AppConfig { default_output_dir: dir, ..old(self).config },
                ..*old(self)
            }),
    {
        self.config.default_output_dir = dir;
        Ok(())
    }

    /// Sets the theme.
    pub fn set_theme(&mut self, theme: Theme) -> (r: Result<(), AppError>)
        ensures
            r is Ok,
            *final(self) == (ConfigManager {
                config: AppConfig { theme, ..old(self).config },
                ..*old(self)
            }),
    {
        self.config.theme = theme;
        Ok(())
    }

    /// Sets the history bound; zero is rejected and nothing changes.
    pub fn set_max_history_entries(&mut self, count: usize) -> (r: Result<(), AppError>)
        ensures
            (r is Ok) == (count > 0),
            r is Ok ==> *final(self) == (ConfigManager {
                config: AppConfig { max_history_entries: count, ..old(self).config },
                ..*old(self)
            }),
            r is Err ==> *final(self) == *old(self) && (r matches Err(e) ==> e is ConfigError),
    {
        if count == 0 {
            return Err(AppError::config_error("最大历史记录条目数必须大于 0"));
        }
        self.config.max_history_entries = count;
        Ok(())
    }

    /// Sets the parallelism options; enabling with a zero task bound is
    /// rejected and nothing changes.
    pub fn set_parallel_processing(&mut self, enabled: bool, max_tasks: usize) -> (r: Result<
        (),
        AppError,
    >)
        ensures
            (r is Ok) == (!enabled || max_tasks > 0),
            r is Ok ==> *final(self) == (ConfigManager {
                config: AppConfig {
                    parallel_processing: enabled,
                    max_parallel_tasks: max_tasks,
                    ..old(self).config
                },
                ..*old(self)
            }),
            r is Err ==> *final(self) == *old(self),
    {
        if enabled && max_tasks == 0 {
            return Err(AppError::config_error("最大并行任务数必须大于 0"));
        }
        self.config.parallel_processing = enabled;
        self.config.max_parallel_tasks = max_tasks;
        Ok(())
    }

    /// The path the configuration is persisted at.
    pub fn config_path(&self) -> (r: &String)
        ensures
            *r == self.config_path,
    {
        &self.config_path
    }
}

} // verus!
