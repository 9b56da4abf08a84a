use bismuth::event::{Event, React};
use bismuth::framework::activity::{Activity, ActivityStack, Transition};
use bismuth::framework::application::Execution;
use bismuth::framework::context::{Context, ContextView, State, UpdateContextView};
use bismuth::framework::time::{FixedUpdate, TimeModel, DEFAULT_STEP};
use bismuth::framework::FrameworkError;
use bismuth::framework::harness::{frame_outcome, Harness};

/// A scripted activity: each update gives the next transition of its script.
struct Scripted {
    name: u32,
    script: Vec<u32>,
    updates: usize,
    suspended: u32,
    resumed: u32,
    reacted: u32,
}

impl Scripted {
    fn new(name: u32, script: Vec<u32>) -> Self {
        Scripted { name, script, updates: 0, suspended: 0, resumed: 0, reacted: 0 }
    }
}

impl React for Scripted {
    fn react(&mut self, _: &Event) {
        self.reacted += 1;
    }
}

impl Activity<Vec<u32>> for Scripted {
    fn update(&mut self, context: &mut Vec<u32>) -> Result<Transition<Self>, FrameworkError> {
        context.push(self.name);
        let step = self.script.get(self.updates).copied().unwrap_or(0);
        self.updates += 1;
        match step {
            0 => Ok(Transition::Keep),
            1 => Ok(Transition::Push(Scripted::new(self.name * 10, vec![2]))),
            2 => Ok(Transition::Pop),
            3 => Ok(Transition::Abort),
            _ => Err(FrameworkError::Activity),
        }
    }

    fn render(&mut self, context: &mut Vec<u32>) -> Result<(), FrameworkError> {
        context.push(self.name + 1000);
        Ok(())
    }

    fn suspend(&mut self) {
        self.suspended += 1;
    }

    fn resume(&mut self) {
        self.resumed += 1;
    }
}

#[test]
fn push_then_pop_returns_to_first_activity() {
    let mut log = Vec::new();
    let mut stack = ActivityStack::new(Scripted::new(1, vec![1, 0, 3]));
    assert_eq!(stack.update(&mut log), Ok(true));
    assert_eq!(stack.len(), 2);
    assert_eq!(stack.update(&mut log), Ok(true));
    assert_eq!(stack.len(), 1);
    assert_eq!(log, vec![1, 10]);
    stack.render(&mut log).unwrap();
    assert_eq!(log, vec![1, 10, 1001]);
}

#[test]
fn abort_empties_the_stack() {
    let mut log = Vec::new();
    let mut stack = ActivityStack::new(Scripted::new(1, vec![3]));
    assert_eq!(stack.update(&mut log), Ok(false));
    assert_eq!(stack.len(), 0);
    assert_eq!(stack.update(&mut log), Ok(false));
    assert_eq!(stack.render(&mut log), Ok(()));
}

#[test]
fn errors_leave_the_stack() {
    let mut log = Vec::new();
    let mut stack = ActivityStack::new(Scripted::new(1, vec![9]));
    assert_eq!(stack.update(&mut log), Err(FrameworkError::Activity));
    assert_eq!(stack.len(), 1);
}

#[test]
fn only_the_top_reacts() {
    let mut stack = ActivityStack::new(Scripted::new(1, vec![]));
    stack.push(Scripted::new(2, vec![]));
    stack.react(&Event::Closed);
    assert_eq!(stack.len(), 2);
    assert!(stack.transition(Transition::Pop));
    assert!(!stack.transition(Transition::Abort));
    assert_eq!(stack.len(), 0);
    assert!(!stack.pop());
}

#[test]
fn fixed_update_consumes_whole_steps() {
    let mut time = FixedUpdate::new(10);
    time.tick(25);
    assert_eq!(time.update(), 2);
    assert_eq!(time.lag(), 5);
    time.tick(4);
    assert_eq!(time.update(), 0);
    assert_eq!(time.lag(), 9);
    time.tick(u64::MAX);
    assert_eq!(time.lag(), u64::MAX);
    assert_eq!(FixedUpdate::default().duration(), DEFAULT_STEP);
}

#[test]
fn framework_error_descriptions() {
    assert_eq!(FrameworkError::Activity.description(), "activity error");
    assert_eq!(FrameworkError::ActivityStack.description(), "activity stack error");
    assert!(Execution::Continue != Execution::Abort);
}

struct Counter(u32);

impl React for Counter {
    fn react(&mut self, _: &Event) {
        self.0 += 1;
    }
}

impl State for Counter {}

struct Screen(u32);

impl React for Screen {
    fn react(&mut self, _: &Event) {
        self.0 += 2;
    }
}

#[test]
fn context_reacts_with_state_and_renderer() {
    let mut context = Context::new(Counter(0), Screen(0));
    context.react(&Event::MouseEntered);
    assert_eq!(context.state().0, 1);
    assert_eq!(context.renderer.0, 2);
    context.state_mut().0 = 7;
    assert_eq!(context.state.0, 7);
}

struct Log(Vec<u32>);

impl React for Log {
    fn react(&mut self, _: &Event) {
        self.0.push(0);
    }
}

impl State for Log {}

struct NoRenderer;

impl React for NoRenderer {
    fn react(&mut self, _: &Event) {}
}

struct Idle(u32);

impl React for Idle {
    fn react(&mut self, _: &Event) {
        self.0 += 1;
    }
}

impl Activity<Context<Log, NoRenderer>> for Idle {
    fn update(&mut self, context: &mut Context<Log, NoRenderer>) -> Result<Transition<Self>, FrameworkError> {
        context.state.0.push(9);
        Ok(Transition::Keep)
    }

    fn render(&mut self, _: &mut Context<Log, NoRenderer>) -> Result<(), FrameworkError> {
        Ok(())
    }
}

#[test]
fn harness_frame_stops_at_close() {
    let mut harness = Harness::new(Context::new(Log(Vec::new()), NoRenderer));
    let mut stack = ActivityStack::new(Idle(0));
    let report = harness.frame(&mut stack, &vec![Event::MouseEntered, Event::MouseLeft]);
    assert!(!report.closed);
    assert_eq!(report.update, Some(Ok(true)));
    assert_eq!(report.render, Some(Ok(())));
    assert!(report.goes_on());
    assert_eq!(harness.context.state.0, vec![0, 0, 9]);
    let report = harness.frame(&mut stack, &vec![Event::MouseEntered, Event::Closed, Event::MouseLeft]);
    assert!(report.closed);
    assert_eq!(report.update, None);
    assert_eq!(report.render, None);
    assert!(!report.goes_on());
    assert_eq!(harness.context.state.0, vec![0, 0, 9, 0]);
}

struct Failing;

impl React for Failing {
    fn react(&mut self, _: &Event) {}
}

impl Activity<Context<Log, NoRenderer>> for Failing {
    fn update(&mut self, _: &mut Context<Log, NoRenderer>) -> Result<Transition<Self>, FrameworkError> {
        Ok(Transition::Keep)
    }

    fn render(&mut self, _: &mut Context<Log, NoRenderer>) -> Result<(), FrameworkError> {
        Err(FrameworkError::Activity)
    }
}

#[test]
fn harness_frame_stops_where_render_fails() {
    let mut harness = Harness::new(Context::new(Log(Vec::new()), NoRenderer));
    let mut stack = ActivityStack::new(Failing);
    let report = harness.frame(&mut stack, &Vec::new());
    assert_eq!(report.update, Some(Ok(true)));
    assert_eq!(report.render, Some(Err(FrameworkError::Activity)));
    assert!(!report.goes_on());
    assert_eq!(stack.len(), 1);
}

#[test]
fn harness_frame_on_empty_stack() {
    let mut harness = Harness::new(Context::new(Log(Vec::new()), NoRenderer));
    let mut stack = ActivityStack::new(Idle(0));
    stack.abort();
    let report = harness.frame(&mut stack, &vec![Event::MouseEntered]);
    assert_eq!(report.update, Some(Ok(false)));
    assert_eq!(report.render, None);
    assert!(!report.goes_on());
}

#[test]
fn frame_outcome_needs_every_step() {
    assert!(frame_outcome(false, Some(Ok(true)), Some(Ok(()))));
    assert!(!frame_outcome(true, Some(Ok(true)), Some(Ok(()))));
    assert!(!frame_outcome(false, Some(Ok(false)), None));
    assert!(!frame_outcome(false, Some(Err(FrameworkError::Activity)), None));
    assert!(!frame_outcome(false, Some(Ok(true)), Some(Err(FrameworkError::ActivityStack))));
    assert!(!frame_outcome(false, None, None));
}
