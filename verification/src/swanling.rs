//! Task sets, tasks, and the per-user state. A task is a plain record here:
//! the callable that issues the HTTP request lives with the surrounding
//! process, keyed by the task's index.

use vstd::prelude::*;

use crate::config::SwanlingConfiguration;
use crate::util;
use crate::SwanlingError;

verus! {

/// One unit of load: a named, weighted, optionally sequenced task. The
/// `on_start` and `on_stop` flags place it in the start or stop list instead
/// of (never besides) the main list.
#[derive(Debug, PartialEq, Eq)]
pub struct SwanlingTask {
    /// Where the task stands in its set's task list.
    pub tasks_index: usize,
    /// The task's name, as it appears in metrics; may be empty.
    pub name: String,
    /// How often to run the task relative to its siblings; at least one.
    pub weight: usize,
    /// Tasks with lower sequence values run before higher ones; zero means
    /// unsequenced, which runs after all sequenced tasks.
    pub sequence: usize,
    /// Run once when the user starts, before the main loop.
    pub on_start: bool,
    /// Run once when the user stops, after the main loop.
    pub on_stop: bool,
}

impl SwanlingTask {
    /// A new task with the default weight of one, unsequenced, in the main
    /// list.
    pub fn new(name: &str) -> (t: SwanlingTask)
        ensures
            t.tasks_index == 0,
            t.name@ == name@,
            t.weight == 1,
            t.sequence == 0,
            t.on_start == false,
            t.on_stop == false,
    {
        SwanlingTask {
            tasks_index: 0,
            name: name.to_owned(),
            weight: 1,
            sequence: 0,
            on_start: false,
            on_stop: false,
        }
    }

    /// Names the task for the metrics.
    pub fn set_name(self, name: &str) -> (t: SwanlingTask)
        ensures
            t == (SwanlingTask { name: t.name, ..self }),
            t.name@ == name@,
    {
        SwanlingTask { name: name.to_owned(), ..self }
    }

    /// Sets how often to run the task; a weight below one is rejected.
    pub fn set_weight(self, weight: usize) -> (r: Result<SwanlingTask, SwanlingError>)
        ensures
            match r {
                Ok(t) => weight >= 1 && t == (SwanlingTask { weight, ..self }),
                Err(e) => weight == 0 && (e matches SwanlingError::InvalidWeight { weight: w, .. }
                    && w == weight),
            },
    {
        if weight < 1 {
            Err(
                SwanlingError::InvalidWeight {
                    weight,
                    detail: "weight must be set to at least 1".to_owned(),
                },
            )
        } else {
            Ok(SwanlingTask { weight, ..self })
        }
    }

    /// Puts the task into a sequence group; groups run in ascending order.
    pub fn set_sequence(self, sequence: usize) -> (t: SwanlingTask)
        ensures
            t == (SwanlingTask { sequence, ..self }),
    {
        SwanlingTask { sequence, ..self }
    }

    /// Marks the task to run once when a user starts.
    pub fn set_on_start(self) -> (t: SwanlingTask)
        ensures
            t == (SwanlingTask { on_start: true, ..self }),
    {
        SwanlingTask { on_start: true, ..self }
    }

    /// Marks the task to run once when a user stops.
    pub fn set_on_stop(self) -> (t: SwanlingTask)
        ensures
            t == (SwanlingTask { on_stop: true, ..self }),
    {
        SwanlingTask { on_stop: true, ..self }
    }
}

/// An allocated task reference: the task's index within its set, and its
/// name, as the scheduler hands them to users.
pub type WeightedSwanlingTasks = Vec<(usize, String)>;

/// A named, weighted collection of tasks executed by a population of users
/// against one optional per-set host.
#[derive(Debug, PartialEq, Eq)]
pub struct SwanlingTaskSet {
    /// The name of the task set.
    pub name: String,
    /// Where the set stands among the registered task sets.
    pub task_sets_index: usize,
    /// How many users to allocate to this set relative to its siblings.
    pub weight: usize,
    /// The least milliseconds a user sleeps between tasks.
    pub min_wait: usize,
    /// The most milliseconds a user sleeps between tasks.
    pub max_wait: usize,
    /// An optional per-set host that overrides the default host.
    pub host: Option<String>,
    /// The tasks of this set, in registration order.
    pub tasks: Vec<SwanlingTask>,
    /// The scheduled on-start list, filled when the load test is prepared.
    pub weighted_on_start_tasks: WeightedSwanlingTasks,
    /// The scheduled main list, filled when the load test is prepared.
    pub weighted_tasks: WeightedSwanlingTasks,
    /// The scheduled on-stop list, filled when the load test is prepared.
    pub weighted_on_stop_tasks: WeightedSwanlingTasks,
}

impl SwanlingTaskSet {
    /// A new, empty task set with the default weight of one and no wait
    /// between tasks.
    pub fn new(name: &str) -> (s: SwanlingTaskSet)
        ensures
            s.name@ == name@,
            s.task_sets_index == 0,
            s.weight == 1,
            s.min_wait == 0,
            s.max_wait == 0,
            s.host is None,
            s.tasks@.len() == 0,
            s.weighted_on_start_tasks@.len() == 0,
            s.weighted_tasks@.len() == 0,
            s.weighted_on_stop_tasks@.len() == 0,
    {
        SwanlingTaskSet {
            name: name.to_owned(),
            task_sets_index: 0,
            weight: 1,
            min_wait: 0,
            max_wait: 0,
            host: None,
            tasks: Vec::new(),
            weighted_on_start_tasks: Vec::new(),
            weighted_tasks: Vec::new(),
            weighted_on_stop_tasks: Vec::new(),
        }
    }

    /// Registers a task; its index within the set is its registration
    /// position.
    pub fn register_task(self, task: SwanlingTask) -> (s: SwanlingTaskSet)
        ensures
            s.tasks@.len() == self.tasks@.len() + 1,
            s.tasks@.last() == (SwanlingTask { tasks_index: self.tasks@.len() as usize, ..task }),
            s.tasks@.subrange(0, self.tasks@.len() as int) == self.tasks@,
            s == (SwanlingTaskSet { tasks: s.tasks, ..self }),
    {
        let mut s = self;
        let index = s.tasks.len();
        s.tasks.push(SwanlingTask { tasks_index: index, ..task });
        s
    }

    /// Sets how many users to allocate to this set; a weight below one is
    /// rejected.
    pub fn set_weight(self, weight: usize) -> (r: Result<SwanlingTaskSet, SwanlingError>)
        ensures
            match r {
                Ok(s) => weight >= 1 && s == (SwanlingTaskSet { weight, ..self }),
                Err(e) => weight == 0 && (e matches SwanlingError::InvalidWeight { weight: w, .. }
                    && w == weight),
            },
    {
        if weight < 1 {
            Err(
                SwanlingError::InvalidWeight {
                    weight,
                    detail: "weight must be set to at least 1".to_owned(),
                },
            )
        } else {
            Ok(SwanlingTaskSet { weight, ..self })
        }
    }

    /// Sets the wait-time window, in milliseconds, slept between tasks; a
    /// minimum above the maximum is rejected.
    pub fn set_wait_time(self, min_wait: usize, max_wait: usize) -> (r: Result<
        SwanlingTaskSet,
        SwanlingError,
    >)
        ensures
            match r {
                Ok(s) => min_wait <= max_wait && s == (SwanlingTaskSet {
                    min_wait,
                    max_wait,
                    ..self
                }),
                Err(e) => min_wait > max_wait && (e matches SwanlingError::InvalidWaitTime {
                    min_wait: a,
                    max_wait: b,
                    ..
                } && a == min_wait && b == max_wait),
            },
    {
        if min_wait > max_wait {
            Err(
                SwanlingError::InvalidWaitTime {
                    min_wait,
                    max_wait,
                    detail: "min_wait must not be larger than max_wait".to_owned(),
                },
            )
        } else {
            Ok(SwanlingTaskSet { min_wait, max_wait, ..self })
        }
    }

    /// Sets a per-set host, overriding the attack-wide default.
    pub fn set_host(self, host: &str) -> (s: SwanlingTaskSet)
        ensures
            s == (SwanlingTaskSet { host: s.host, ..self }),
            s.host matches Some(h) && h@ == host@,
    {
        SwanlingTaskSet { host: Some(host.to_owned()), ..self }
    }
}

/// Commands the supervisor sends to a running user.
#[derive(Clone, Copy, Debug, PartialEq, Eq, Structural)]
pub enum SwanlingUserCommand {
    /// Sleep and check in again.
    Wait,
    /// Keep running tasks.
    Run,
    /// Finish the current pass and exit.
    Exit,
}

/// The per-user state: which set it runs, its base URL and wait window, its
/// position in the main list, and the coordinated-omission accounting
/// counters. The channels that carry metrics and commands live with the
/// surrounding process.
#[derive(Debug, PartialEq, Eq)]
pub struct SwanlingUser {
    /// The index of the task set this user runs.
    pub task_sets_index: usize,
    /// A copy of the effective configuration.
    pub config: SwanlingConfiguration,
    /// The base URL every relative request path is joined to.
    pub base_url: String,
    /// The least milliseconds slept between tasks.
    pub min_wait: usize,
    /// The most milliseconds slept between tasks.
    pub max_wait: usize,
    /// Which allocated user slot this user fills.
    pub weighted_users_index: usize,
    /// The scheduled on-start list this user executes once.
    pub weighted_on_start_tasks: WeightedSwanlingTasks,
    /// The scheduled main list this user loops over.
    pub weighted_tasks: WeightedSwanlingTasks,
    /// The scheduled on-stop list this user executes once.
    pub weighted_on_stop_tasks: WeightedSwanlingTasks,
    /// The current position in the main list.
    pub position: usize,
    /// Milliseconds this user has slept between tasks, for
    /// coordinated-omission accounting.
    pub cumulative_sleep_ms: u64,
    /// The expected milliseconds of one full pass over the main list.
    pub request_cadence_ms: u64,
    /// How many full passes this user has completed.
    pub passes: u64,
    /// Total observed pass time, for the average mitigation strategy.
    pub total_pass_ms: u64,
    /// Whether the next emitted request metric marks an omitted period.
    pub omitted_period_armed: bool,
    /// A hash identifying the load test this user belongs to; it matters
    /// only to distributed coordination, which this engine does not run, so
    /// it stays zero here.
    pub load_test_hash: u64,
}

impl SwanlingUser {
    /// A new user for one task set.
    pub fn new(
        task_sets_index: usize,
        base_url: String,
        min_wait: usize,
        max_wait: usize,
        configuration: &SwanlingConfiguration,
        load_test_hash: u64,
    ) -> (r: Result<SwanlingUser, SwanlingError>)
        ensures
            match r {
                Ok(u) => {
                    &&& u.task_sets_index == task_sets_index
                    &&& u.base_url == base_url
                    &&& u.min_wait == min_wait
                    &&& u.max_wait == max_wait
                    &&& u.config == configuration
                    &&& u.weighted_users_index == 0
                    &&& u.weighted_on_start_tasks@.len() == 0
                    &&& u.weighted_tasks@.len() == 0
                    &&& u.weighted_on_stop_tasks@.len() == 0
                    &&& u.position == 0
                    &&& u.cumulative_sleep_ms == 0
                    &&& u.request_cadence_ms == 0
                    &&& u.passes == 0
                    &&& u.total_pass_ms == 0
                    &&& u.omitted_period_armed == false
                    &&& u.load_test_hash == load_test_hash
                },
                Err(_) => false,
            },
    {
        Ok(
            SwanlingUser {
                task_sets_index,
                config: configuration.clone(),
                base_url,
                min_wait,
                max_wait,
                weighted_users_index: 0,
                weighted_on_start_tasks: Vec::new(),
                weighted_tasks: Vec::new(),
                weighted_on_stop_tasks: Vec::new(),
                position: 0,
                cumulative_sleep_ms: 0,
                request_cadence_ms: 0,
                passes: 0,
                total_pass_ms: 0,
                omitted_period_armed: false,
                load_test_hash,
            },
        )
    }

    /// A one-time-use user for the test-start and test-stop hooks.
    pub fn single(base_url: String, configuration: &SwanlingConfiguration) -> (r: Result<
        SwanlingUser,
        SwanlingError,
    >)
        ensures
            r matches Ok(u) && u.task_sets_index == 0 && u.base_url == base_url && u.config
                == configuration,
    {
        SwanlingUser::new(0, base_url, 0, 0, configuration, 0)
    }
}

/// The host a user runs against: the `--host` option wins over the task
/// set's own host, which wins over the programmatic default; the chosen
/// value must parse as a URL, and having none at all is an error.
pub fn get_base_url(
    config_host: Option<String>,
    task_set_host: Option<String>,
    default_host: Option<String>,
) -> (r: Result<String, SwanlingError>)
    ensures
        match r {
            Ok(h) => {
                &&& util::url_accepts(h@)
                &&& match config_host {
                    Some(c) => h == c,
                    None => match task_set_host {
                        Some(t) => h == t,
                        None => default_host matches Some(d) && h == d,
                    },
                }
            },
            Err(e) => match e {
                SwanlingError::InvalidHost { host, .. } => {
                    &&& !util::url_accepts(host@)
                    &&& match config_host {
                        Some(c) => host == c,
                        None => match task_set_host {
                            Some(t) => host == t,
                            None => default_host matches Some(d) && host == d,
                        },
                    }
                },
                SwanlingError::InvalidOption { .. } => config_host is None && task_set_host is None
                    && default_host is None,
                _ => false,
            },
        },
{
    let chosen: String = match config_host {
        Some(c) => c,
        None => match task_set_host {
            Some(t) => t,
            None => match default_host {
                Some(d) => d,
                None => {
                    return Err(
                        SwanlingError::InvalidOption {
                            option: "--host".to_owned(),
                            value: "".to_owned(),
                            detail: "A host must be defined via the --host option, the SwanlingAttack.set_default() function, or the SwanlingTaskSet.set_host() function".to_owned(),
                        },
                    );
                },
            },
        },
    };
    if util::url_parses(chosen.as_str()) {
        Ok(chosen)
    } else {
        Err(
            SwanlingError::InvalidHost {
                host: chosen,
                detail: "host must be a valid URL".to_owned(),
            },
        )
    }
}

impl Clone for SwanlingTask {
    /// A clone equals the original in every field.
    fn clone(&self) -> (r: Self)
        ensures
            r == *self,
    {
        SwanlingTask {
            tasks_index: self.tasks_index,
            name: self.name.clone(),
            weight: self.weight,
            sequence: self.sequence,
            on_start: self.on_start,
            on_stop: self.on_stop,
        }
    }
}

/// Copies a scheduled task list.
pub fn clone_weighted(v: &WeightedSwanlingTasks) -> (r: WeightedSwanlingTasks)
    ensures
        r@ == v@,
{
    let mut r: WeightedSwanlingTasks = Vec::new();
    let mut i: usize = 0;
    while i < v.len()
        invariant
            i <= v@.len(),
            r@ == v@.subrange(0, i as int),
        decreases v@.len() - i,
    {
        r.push((v[i].0, v[i].1.clone()));
        proof {
            assert((v[i as int].0, v[i as int].1) == v@[i as int]);
        }
        i = i + 1;
        proof {
            assert(r@ =~= v@.subrange(0, i as int));
        }
    }
    proof {
        assert(r@ =~= v@);
    }
    r
}

/// Copies a task list.
pub fn clone_tasks(v: &Vec<SwanlingTask>) -> (r: Vec<SwanlingTask>)
    ensures
        r@ == v@,
{
    let mut r: Vec<SwanlingTask> = Vec::new();
    let mut i: usize = 0;
    while i < v.len()
        invariant
            i <= v@.len(),
            r@ == v@.subrange(0, i as int),
        decreases v@.len() - i,
    {
        r.push(v[i].clone());
        i = i + 1;
        proof {
            assert(r@ =~= v@.subrange(0, i as int));
        }
    }
    proof {
        assert(r@ =~= v@);
    }
    r
}

impl Clone for SwanlingTaskSet {
    /// A clone equals the original in every field (task lists by contents).
    fn clone(&self) -> (r: Self)
        ensures
            r.name == self.name,
            r.task_sets_index == self.task_sets_index,
            r.weight == self.weight,
            r.min_wait == self.min_wait,
            r.max_wait == self.max_wait,
            r.host == self.host,
            r.tasks@ == self.tasks@,
            r.weighted_on_start_tasks@ == self.weighted_on_start_tasks@,
            r.weighted_tasks@ == self.weighted_tasks@,
            r.weighted_on_stop_tasks@ == self.weighted_on_stop_tasks@,
    {
        SwanlingTaskSet {
            name: self.name.clone(),
            task_sets_index: self.task_sets_index,
            weight: self.weight,
            min_wait: self.min_wait,
            max_wait: self.max_wait,
            host: crate::config::clone_opt_string(&self.host),
            tasks: clone_tasks(&self.tasks),
            weighted_on_start_tasks: clone_weighted(&self.weighted_on_start_tasks),
            weighted_tasks: clone_weighted(&self.weighted_tasks),
            weighted_on_stop_tasks: clone_weighted(&self.weighted_on_stop_tasks),
        }
    }
}

impl Clone for SwanlingUser {
    /// A clone equals the original in every field (task lists by contents).
    fn clone(&self) -> (r: Self)
        ensures
            r.task_sets_index == self.task_sets_index,
            r.config == self.config,
            r.base_url == self.base_url,
            r.min_wait == self.min_wait,
            r.max_wait == self.max_wait,
            r.weighted_users_index == self.weighted_users_index,
            r.weighted_on_start_tasks@ == self.weighted_on_start_tasks@,
            r.weighted_tasks@ == self.weighted_tasks@,
            r.weighted_on_stop_tasks@ == self.weighted_on_stop_tasks@,
            r.position == self.position,
            r.cumulative_sleep_ms == self.cumulative_sleep_ms,
            r.request_cadence_ms == self.request_cadence_ms,
            r.passes == self.passes,
            r.total_pass_ms == self.total_pass_ms,
            r.omitted_period_armed == self.omitted_period_armed,
            r.load_test_hash == self.load_test_hash,
    {
        SwanlingUser {
            task_sets_index: self.task_sets_index,
            config: self.config.clone(),
            base_url: self.base_url.clone(),
            min_wait: self.min_wait,
            max_wait: self.max_wait,
            weighted_users_index: self.weighted_users_index,
            weighted_on_start_tasks: clone_weighted(&self.weighted_on_start_tasks),
            weighted_tasks: clone_weighted(&self.weighted_tasks),
            weighted_on_stop_tasks: clone_weighted(&self.weighted_on_stop_tasks),
            position: self.position,
            cumulative_sleep_ms: self.cumulative_sleep_ms,
            request_cadence_ms: self.request_cadence_ms,
            passes: self.passes,
            total_pass_ms: self.total_pass_ms,
            omitted_period_armed: self.omitted_period_armed,
            load_test_hash: self.load_test_hash,
        }
    }
}

} // verus!
