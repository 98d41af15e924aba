use denia::agent::compact::{CompactionSettings, ContextPressure};
use denia::agent::course::{Act, Course, Gesture, Happened, StepPrompt};
use denia::agent::injections::Background;
use denia::agent::loop_guard::LoopGuard;
use denia::agent::request::{Attempt, Backoff, CompactionResult};
use denia::codes;
use denia::error::LlmFailure;
use denia::session::{
    AbortCause, RequestHeaderReason, SessionEnvelope, SessionEvent, TurnEndReason,
};
use denia::stream::{ContentBlock, ModelSelection, StreamChunk};

struct Run {
    course: Course,
    log: Vec<SessionEnvelope>,
}

impl Run {
    fn open(log: Vec<SessionEnvelope>, gesture: Option<Gesture>) -> Run {
        let is_snapshot = vec![false; log.len()];
        let course = Course::open(1, &log, &is_snapshot, gesture, None, 0, LoopGuard::new());
        Run { course, log }
    }

    fn tell(&mut self, happened: Happened) -> Act {
        let mut events = Vec::new();
        let act = self.course.advance(happened, &self.log, &mut events);
        for event in events {
            self.append(event);
        }
        act
    }

    fn append(&mut self, event: SessionEvent) -> u64 {
        let seq = self.log.len() as u64;
        self.log.push(SessionEnvelope { seq, time: 0, event });
        seq
    }

    fn gather(&mut self) -> Act {
        self.tell(Happened::Gathered { background: Some(background()) })
    }

    fn assemble(&mut self, for_model: &str) -> Act {
        let prompt = StepPrompt {
            context: "ctx".into(),
            cleared: "none".into(),
            for_user: "shown".into(),
            for_model: for_model.into(),
            tools: Vec::new(),
        };
        self.tell(Happened::Assembled {
            prompt,
            selection: ModelSelection {
                provider: "p".into(),
                model: "m".into(),
                reasoning_effort: None,
            },
            context_window: Some(100),
        })
    }

    fn weigh(&mut self, reached: bool) -> Act {
        self.tell(Happened::Weighed {
            pressure: ContextPressure {
                context_window: Some(100),
                pressure_tokens: Some(90),
                projected_tokens: Some(90),
            },
            settings: CompactionSettings::default(),
            reached,
        })
    }

    fn stream(&mut self, blocks: Vec<ContentBlock>, error: Option<LlmFailure>) -> Act {
        let mut attempt = Attempt::new();
        for block in blocks {
            let chunk = StreamChunk::BlockEnd { index: 0, block };
            let seq = self.append(SessionEvent::AssistantChunk {
                turn: 1,
                step: 1,
                chunk: chunk.clone(),
            });
            attempt.take(chunk, seq);
        }
        self.tell(Happened::Streamed {
            attempt,
            stream_error: error,
            interrupted: false,
            cancelled: false,
            backoff: Backoff { retryable: true, max_retries: 1, delay_ms: 50 },
        })
    }

    /// Up to the request of the first step.
    fn to_request(&mut self) {
        assert!(matches!(self.gather(), Act::Assemble { step: 1 }));
        assert!(matches!(self.assemble("sys"), Act::Weigh { step: 1, ref system } if system == "sys"));
        assert!(matches!(self.weigh(false), Act::Request));
    }

    fn kinds(&self) -> Vec<&'static str> {
        self.log
            .iter()
            .map(|envelope| match &envelope.event {
                SessionEvent::StepStart { .. } => "step-start",
                SessionEvent::StepEnd { .. } => "step-end",
                SessionEvent::TurnEnd { .. } => "turn-end",
                SessionEvent::UserMessage { .. } => "message",
                SessionEvent::SystemPrompt { .. } => "prompt",
                SessionEvent::RequestHeader { .. } => "header",
                SessionEvent::RequestContext { .. } => "context",
                SessionEvent::AssistantMessage { .. } => "answer",
                SessionEvent::AssistantChunk { .. } => "chunk",
                SessionEvent::RetryAttempt { .. } => "retry",
                _ => "other",
            })
            .collect()
    }
}

fn background() -> Background {
    Background {
        workspace: None,
        capabilities: Ok(vec!["cap".to_string()]),
        allowed_tools: None,
        skills: None,
        goal: None,
        goal_tokens_used: 0,
    }
}

fn text(text: &str) -> ContentBlock {
    ContentBlock::Text { text: text.into() }
}

#[test]
fn turn_runs_from_the_background_to_its_end() {
    let mut run = Run::open(Vec::new(), None);
    run.to_request();
    match run.stream(vec![text("done")], None) {
        Act::End { reason } => assert_eq!(reason, TurnEndReason::Completed),
        _ => panic!("the turn is over"),
    }
    assert_eq!(
        run.kinds(),
        vec![
            "message", "step-start", "message", "prompt", "header", "context", "chunk", "answer",
            "step-end", "turn-end"
        ]
    );
}

#[test]
fn calls_are_carried_out_and_another_step_begins() {
    let mut run = Run::open(Vec::new(), None);
    run.to_request();
    let call = ContentBlock::ToolCall {
        id: "c1".into(),
        name: "ls".into(),
        arguments: "{}".into(),
    };
    match run.stream(vec![call], None) {
        Act::Run { step, calls } => {
            assert_eq!(step, 1);
            assert_eq!(calls[0].name, "ls");
        }
        _ => panic!("the call is to be carried out"),
    }
    assert!(matches!(run.tell(Happened::Ran), Act::Gather));
    assert!(matches!(run.gather(), Act::Assemble { step: 2 }));
    let logged = run.log.len();
    assert!(matches!(run.assemble("sys"), Act::Weigh { step: 2, .. }));
    assert_eq!(run.log.len(), logged, "nothing has changed, so nothing is told or logged again");
}

#[test]
fn prompt_that_cannot_be_put_together_ends_the_turn() {
    let mut run = Run::open(Vec::new(), None);
    let _ = run.gather();
    match run.tell(Happened::NotAssembled { error: "no template".into() }) {
        Act::End { reason: TurnEndReason::Error { failure } } => {
            assert_eq!(failure.code, codes::UNKNOWN);
            assert_eq!(failure.message, "no template");
        }
        _ => panic!("the turn is over"),
    }
    assert_eq!(run.kinds(), vec!["message", "step-start", "step-end", "turn-end"]);
}

#[test]
fn user_can_cancel_before_the_stream_and_in_a_pause() {
    let mut run = Run::open(Vec::new(), None);
    run.to_request();
    match run.tell(Happened::Cancelled) {
        Act::End { reason } => {
            assert_eq!(reason, TurnEndReason::Aborted { cause: Some(AbortCause::User) })
        }
        _ => panic!("the turn is over"),
    }
    let mut run = Run::open(Vec::new(), None);
    run.to_request();
    let failure = LlmFailure::new(codes::TIMEOUT, "slow");
    let act = run.stream(vec![text("half")], Some(failure));
    assert!(matches!(act, Act::Pause { delay_ms: 50 }));
    assert!(matches!(run.tell(Happened::Paused { cancelled: true }), Act::End { .. }));
    assert_eq!(run.kinds()[6..], ["chunk", "retry", "answer", "step-end", "turn-end"]);
}

#[test]
fn request_is_tried_again_as_often_as_the_policy_says() {
    let mut run = Run::open(Vec::new(), None);
    run.to_request();
    let failure = || Some(LlmFailure::new(codes::TIMEOUT, "slow"));
    assert!(matches!(run.stream(Vec::new(), failure()), Act::Pause { .. }));
    assert!(matches!(run.tell(Happened::Paused { cancelled: false }), Act::Request));
    assert!(matches!(run.stream(Vec::new(), failure()), Act::End { .. }));
}

#[test]
fn stream_that_does_not_begin_is_told_to_the_model_or_the_user() {
    let mut run = Run::open(Vec::new(), None);
    run.to_request();
    let failure = LlmFailure::new(codes::AUTH, "no key");
    assert!(matches!(run.tell(Happened::Refused { failure }), Act::End { .. }));
    let mut run = Run::open(Vec::new(), None);
    run.to_request();
    let failure = LlmFailure::new(codes::INVALID_REQUEST, "bad tool");
    assert!(matches!(run.tell(Happened::Refused { failure }), Act::Gather));
    assert_eq!(run.course.feedback, 1);
}

#[test]
fn history_is_folded_before_a_request_under_pressure() {
    let mut run = Run::open(Vec::new(), None);
    let _ = run.gather();
    let _ = run.assemble("sys");
    assert!(matches!(run.weigh(true), Act::Compact));
    let act = run.tell(Happened::Compacted { result: CompactionResult::Failed });
    assert!(matches!(act, Act::Request));
    assert_eq!(run.course.failures, 1);
}

#[test]
fn called_skill_is_told_once() {
    let gesture = Gesture { name: "pdf".into(), source: "user".into(), body: "how".into() };
    let mut run = Run::open(Vec::new(), Some(gesture));
    let _ = run.gather();
    let _ = run.assemble("sys");
    assert!(run.log.iter().any(|envelope| matches!(
        &envelope.event,
        SessionEvent::UserMessage { text, .. } if text == "[技能正文 pdf（来源：user）]\nhow"
    )));
    assert!(run.course.gesture.is_none());
}

#[test]
fn session_that_is_taken_up_again_keeps_its_system_prompt() {
    let mut first = Run::open(Vec::new(), None);
    first.to_request();
    let _ = first.stream(vec![text("done")], None);
    let mut second = Run::open(first.log, None);
    let _ = second.gather();
    match second.assemble("new sys") {
        Act::Weigh { system, .. } => assert_eq!(system, "sys"),
        _ => panic!("the request follows"),
    }
    let reasons: Vec<RequestHeaderReason> = second
        .log
        .iter()
        .filter_map(|envelope| match &envelope.event {
            SessionEvent::RequestHeader { reason, .. } => Some(*reason),
            _ => None,
        })
        .collect();
    assert_eq!(reasons, vec![RequestHeaderReason::Initial, RequestHeaderReason::Resume]);
    assert!(second.log.iter().any(|envelope| matches!(
        &envelope.event,
        SessionEvent::UserMessage { text, channel: Some(channel), .. }
            if channel == "system-update" && text.contains("new sys")
    )));
}
