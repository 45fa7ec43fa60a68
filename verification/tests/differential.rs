use neodiff::differential::{merge_exit_kinds, DiffExecutor, ProxyObserversTuple};
use neodiff::error::Error;
use neodiff::executor::{DiffExitKind, Executor, ExitKind};
use neodiff::observer::{HasObservers, MatchName, ObserversTuple, StdOutObserver};

/// An executor with a given outcome that logs what is done with it.
struct Fixed {
    name: &'static str,
    outcome: Option<ExitKind>,
    resets: usize,
    observers: Recorder,
}

/// Observers that log their notifications.
struct Recorder {
    fails: bool,
    moments: Vec<String>,
    out: StdOutObserver,
}

fn recorder(name: &str, fails: bool) -> Recorder {
    Recorder { fails, moments: vec![], out: StdOutObserver::new(name) }
}

fn fixed(name: &'static str, outcome: Option<ExitKind>) -> Fixed {
    Fixed { name, outcome, resets: 0, observers: recorder(name, false) }
}

impl Executor<usize, u8, Vec<String>, bool> for Fixed {
    fn run_target(
        &mut self,
        fuzzer: &mut bool,
        state: &mut Vec<String>,
        mgr: &mut usize,
        input: &u8,
    ) -> Result<ExitKind, Error> {
        state.push(format!("{}:{}", self.name, input));
        *mgr += 1;
        *fuzzer = !*fuzzer;
        self.outcome.ok_or(Error::Unknown(self.name.to_string()))
    }

    fn post_run_reset(&mut self) {
        self.resets += 1;
    }
}

impl HasObservers<Recorder> for Fixed {
    fn observers(&self) -> &Recorder {
        &self.observers
    }

    fn observers_mut(&mut self) -> &mut Recorder {
        &mut self.observers
    }
}

impl Recorder {
    fn note(&mut self, moment: String, state: &mut Vec<String>) -> Result<(), Error> {
        state.push(format!("{} {}", self.out.name(), moment));
        self.moments.push(moment);
        if self.fails {
            Err(Error::Unknown(self.out.name().to_string()))
        } else {
            Ok(())
        }
    }
}

impl ObserversTuple<u8, Vec<String>> for Recorder {
    fn pre_exec_all(&mut self, state: &mut Vec<String>, input: &u8) -> Result<(), Error> {
        self.note(format!("pre {}", input), state)
    }

    fn post_exec_all(
        &mut self,
        state: &mut Vec<String>,
        input: &u8,
        exit_kind: &ExitKind,
    ) -> Result<(), Error> {
        self.note(format!("post {} {:?}", input, exit_kind), state)
    }

    fn pre_exec_child_all(&mut self, state: &mut Vec<String>, input: &u8) -> Result<(), Error> {
        self.note(format!("pre child {}", input), state)
    }

    fn post_exec_child_all(
        &mut self,
        state: &mut Vec<String>,
        input: &u8,
        exit_kind: &ExitKind,
    ) -> Result<(), Error> {
        self.note(format!("post child {} {:?}", input, exit_kind), state)
    }
}

impl MatchName<StdOutObserver> for Recorder {
    fn match_name(&self, name: &str) -> Option<&StdOutObserver> {
        if self.out.name() == name {
            Some(&self.out)
        } else {
            None
        }
    }

    fn match_name_mut(&mut self, name: &str) -> Option<&mut StdOutObserver> {
        if self.out.name() == name {
            Some(&mut self.out)
        } else {
            None
        }
    }
}

type Pair = DiffExecutor<Fixed, Fixed, Recorder, Recorder>;

fn run(pair: &mut Pair) -> (Result<ExitKind, Error>, Vec<String>, usize) {
    let mut fuzzer = false;
    let mut state = vec![];
    let mut mgr = 0;
    let result = pair.run_target(&mut fuzzer, &mut state, &mut mgr, &9);
    assert_eq!(fuzzer, mgr % 2 == 1);
    (result, state, mgr)
}

#[test]
fn agreeing_sides_end_alike() {
    for kind in [ExitKind::Normal, ExitKind::Crash, ExitKind::Oom, ExitKind::Timeout] {
        let mut pair = Pair::new(fixed("a", Some(kind)), fixed("b", Some(kind)));
        let (result, state, mgr) = run(&mut pair);
        assert_eq!(result.unwrap(), kind);
        assert_eq!(state, vec!["a:9", "b:9"]);
        assert_eq!(mgr, 2);
        assert_eq!((pair.primary().resets, pair.secondary().resets), (1, 1));
    }
}

#[test]
fn disagreeing_sides_are_a_difference() {
    let mut pair =
        Pair::new(fixed("a", Some(ExitKind::Normal)), fixed("b", Some(ExitKind::Timeout)));
    let (result, _, _) = run(&mut pair);
    assert_eq!(
        result.unwrap(),
        ExitKind::Diff { primary: DiffExitKind::Normal, secondary: DiffExitKind::Timeout }
    );
}

#[test]
fn failing_primary_ends_the_run() {
    let mut pair = Pair::new(fixed("a", None), fixed("b", Some(ExitKind::Normal)));
    let (result, state, mgr) = run(&mut pair);
    assert!(matches!(result, Err(Error::Unknown(name)) if name == "a"));
    assert_eq!(state, vec!["a:9"]);
    assert_eq!(mgr, 1);
    assert_eq!((pair.primary().resets, pair.secondary().resets), (0, 0));
}

#[test]
fn failing_secondary_fails_the_run() {
    let mut pair = Pair::new(fixed("a", Some(ExitKind::Normal)), fixed("b", None));
    let (result, state, _) = run(&mut pair);
    assert!(matches!(result, Err(Error::Unknown(name)) if name == "b"));
    assert_eq!(state, vec!["a:9", "b:9"]);
    assert_eq!((pair.primary().resets, pair.secondary().resets), (1, 0));
}

#[test]
fn reset_of_the_pair_changes_nothing() {
    let mut pair = Pair::new(fixed("a", None), fixed("b", None));
    pair.post_run_reset();
    assert_eq!((pair.primary().resets, pair.secondary().resets), (0, 0));
}

#[test]
fn merged_exit_kinds() {
    let nested = ExitKind::Diff { primary: DiffExitKind::Crash, secondary: DiffExitKind::Oom };
    assert_eq!(merge_exit_kinds(nested, nested), nested);
    assert_eq!(
        merge_exit_kinds(nested, ExitKind::Oom),
        ExitKind::Diff { primary: DiffExitKind::Diff, secondary: DiffExitKind::Oom }
    );
    assert_eq!(DiffExitKind::from(ExitKind::Crash), DiffExitKind::Crash);
}

#[test]
fn sides_are_lent_out() {
    let mut pair = Pair::new(fixed("a", None), fixed("b", None));
    pair.primary().outcome = Some(ExitKind::Crash);
    pair.secondary().outcome = Some(ExitKind::Crash);
    assert_eq!(run(&mut pair).0.unwrap(), ExitKind::Crash);
}

#[test]
fn notifications_reach_the_primary_first() {
    let mut pair = Pair::new(fixed("a", None), fixed("b", None));
    let mut state = vec![];
    let mut proxy = pair.observers_mut();
    proxy.pre_exec_all(&mut state, &1).unwrap();
    proxy.post_exec_all(&mut state, &2, &ExitKind::Oom).unwrap();
    proxy.pre_exec_child_all(&mut state, &3).unwrap();
    proxy.post_exec_child_all(&mut state, &4, &ExitKind::Crash).unwrap();
    let moments = vec!["pre 1", "post 2 Oom", "pre child 3", "post child 4 Crash"];
    let expected: Vec<String> =
        moments.iter().flat_map(|m| vec![format!("a {}", m), format!("b {}", m)]).collect();
    assert_eq!(state, expected);
    let seen = pair.observers();
    assert_eq!(seen.primary.moments, moments);
    assert_eq!(seen.secondary.moments, moments);
}

#[test]
fn failing_notification_stops_at_the_primary() {
    let mut a = recorder("a", true);
    let mut b = recorder("b", false);
    let mut state = vec![];
    let mut proxy = ProxyObserversTuple { primary: &mut a, secondary: &mut b };
    assert!(proxy.pre_exec_all(&mut state, &1).is_err());
    assert!(proxy.post_exec_all(&mut state, &1, &ExitKind::Normal).is_err());
    assert!(proxy.pre_exec_child_all(&mut state, &1).is_err());
    assert!(proxy.post_exec_child_all(&mut state, &1, &ExitKind::Normal).is_err());
    assert_eq!(state.len(), 4);
    assert_eq!((a.moments.len(), b.moments.len()), (4, 0));
}

#[test]
fn failing_secondary_notification_is_returned() {
    let mut a = recorder("a", false);
    let mut b = recorder("b", true);
    let mut proxy = ProxyObserversTuple { primary: &mut a, secondary: &mut b };
    let result = proxy.pre_exec_all(&mut vec![], &1);
    assert!(matches!(result, Err(Error::Unknown(name)) if name == "b"));
}

#[test]
fn primary_names_hide_secondary_ones() {
    let mut a = recorder("same", false);
    let mut b = recorder("same", false);
    a.out.stdout = Some("primary".to_string());
    b.out.stdout = Some("secondary".to_string());
    let mut proxy = ProxyObserversTuple { primary: &mut a, secondary: &mut b };
    assert_eq!(proxy.match_name("same").unwrap().stdout.as_deref(), Some("primary"));
    proxy.match_name_mut("same").unwrap().stdout = None;
    assert!(proxy.match_name("other").is_none());
    assert!(proxy.match_name_mut("other").is_none());
    assert_eq!(a.out.stdout, None);
    assert_eq!(b.out.stdout.as_deref(), Some("secondary"));
}

#[test]
fn secondary_names_are_found() {
    let mut pair = Pair::new(fixed("a", None), fixed("b", None));
    assert_eq!(pair.observers().match_name::<StdOutObserver>("b").unwrap().name(), "b");
    assert_eq!(pair.observers().match_name::<StdOutObserver>("a").unwrap().name(), "a");
    assert!(pair.observers().match_name::<StdOutObserver>("c").is_none());
    pair.observers_mut().match_name_mut("b").unwrap().stdout = Some("x".to_string());
    assert_eq!(pair.secondary().observers.out.stdout.as_deref(), Some("x"));
}

#[test]
fn proxies_can_be_pointed_elsewhere() {
    let (mut a, mut b) = (recorder("a", false), recorder("b", false));
    let (mut c, mut d) = (recorder("c", false), recorder("d", false));
    let mut proxy = ProxyObserversTuple { primary: &mut a, secondary: &mut b };
    proxy.set(&mut c, &mut d);
    assert!(proxy.match_name("a").is_none());
    assert_eq!(proxy.match_name("d").unwrap().name(), "d");
}

#[test]
fn written_observers_are_found_later() {
    let mut pair = Pair::new(fixed("a", None), fixed("b", None));
    for name in ["a", "b"] {
        pair.observers_mut().match_name_mut(name).unwrap().stdout = Some(format!("by {}", name));
    }
    assert!(pair.observers_mut().match_name_mut("c").is_none());
    let found = |name: &str| {
        pair.observers().match_name::<StdOutObserver>(name).map(|o| o.stdout.clone().unwrap())
    };
    assert_eq!(found("a").as_deref(), Some("by a"));
    assert_eq!(found("b").as_deref(), Some("by b"));
    assert_eq!(found("c"), None);
}

#[test]
fn both_proxies_show_the_same_observers() {
    let mut pair = Pair::new(fixed("a", None), fixed("b", None));
    pair.primary().observers.moments.push("seen".to_string());
    let shown = pair.observers().primary.moments.clone();
    assert_eq!(*pair.observers_mut().primary.moments, shown);
    let shown = pair.observers().secondary.out.name().to_string();
    assert_eq!(pair.observers_mut().secondary.out.name(), shown);
}
