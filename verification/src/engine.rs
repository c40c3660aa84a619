//! Connection lifecycle: the decision core of the stream manager.
//!
//! The manager drives repeated connection sessions under the reconnection
//! policy.  It is written as a state machine: the caller performs each
//! outside action (connect, subscribe, run the receive loop, sleep) and
//! reports back what happened, together with the value of the shared stop
//! flag it observed; `step` decides the statuses to publish and the next
//! action.  Every transition is pinned down by `spec_step_post`.

use vstd::prelude::*;

verus! {

use crate::classify::is_fatal_error;
use crate::classify::spec_is_fatal;
use crate::policy::ReconnectionPolicy;
use vstd::string::StringSliceAdditionalSpecFns;
use vstd::utf8::encode_utf8;

/// Whether a message, seen as a character string, is a fatal error.
pub open spec fn spec_fatal_message(m: Seq<char>) -> bool {
    spec_is_fatal(encode_utf8(m))
}

/// The manager's own record of the connection, readable by the consumer.
#[derive(Debug, Clone, PartialEq)]
pub enum ConnectionStatus {
    Connected,
    Disconnected,
    Connecting,
    Error(String),
}

/// Status transitions published to the consumer, in the order they occur.
#[derive(Debug, Clone)]
pub enum WebSocketStatus {
    /// Never started.
    Idle,
    Connecting,
    Connected { since_millis: u64 },
    Reconnecting { attempt: u32, next_retry_secs: u64 },
    Error { message: String, recoverable: bool },
    /// Clean stop.
    Disconnected,
}

/// How one receive loop ended.
#[derive(Debug, Clone)]
pub enum SessionOutcome {
    /// Clean stream end, stop observed, or the consumer went away.
    Disconnected,
    /// A transport-level failure.
    Error { message: String },
}

/// What the caller reports back after performing the requested action.
#[derive(Debug, Clone)]
pub enum Event {
    /// Kicks the engine off.
    Start,
    ConnectSucceeded { since_millis: u64 },
    ConnectFailed { message: String },
    SubscribeSucceeded,
    SubscribeFailed,
    SessionEnded { outcome: SessionOutcome },
    SleepFinished,
}

/// What the caller must do next.
#[derive(Debug, Clone, Copy, PartialEq, Eq, Structural)]
pub enum Action {
    /// Attempt a connection; report `ConnectSucceeded` or `ConnectFailed`.
    Connect,
    /// Send the subscribe frame; report `SubscribeSucceeded` or `SubscribeFailed`.
    Subscribe,
    /// Run the receive loop; report `SessionEnded`.
    RunSession,
    /// Sleep, re-checking the stop flag at a short granularity; report
    /// `SleepFinished`.
    Sleep { delay_secs: u64 },
    /// Send the unsubscribe frame, then stop for good.
    UnsubscribeThenHalt,
    /// Stop for good.
    Halt,
}

/// Where the engine stands between events.
#[derive(Debug, Clone, Copy, PartialEq, Eq, Structural)]
pub enum Phase {
    Idle,
    AwaitingConnect,
    AwaitingSubscribe,
    InSession,
    Backoff,
    Halted,
}

/// What `step` hands back: statuses to publish, then an action to perform.
pub struct StepResult {
    pub emits: Vec<WebSocketStatus>,
    pub action: Action,
}

/// Drives the Connecting/Connected/Error/Disconnected lifecycle across
/// repeated sessions; the sole writer of the connection status.
pub struct StreamManager {
    pub policy: ReconnectionPolicy,
    pub phase: Phase,
    /// Whether a non-empty credential was supplied.
    pub has_credential: bool,
    pub status: ConnectionStatus,
}

impl StreamManager {
    pub open spec fn wf(self) -> bool {
        self.policy.wf()
    }

    /// Which events each phase can answer.  A halted engine answers none.
    pub open spec fn spec_accepts(phase: Phase, event: Event) -> bool {
        match event {
            Event::Start => phase is Idle,
            Event::ConnectSucceeded { .. } => phase is AwaitingConnect,
            Event::ConnectFailed { .. } => phase is AwaitingConnect,
            Event::SubscribeSucceeded => phase is AwaitingSubscribe,
            Event::SubscribeFailed => phase is AwaitingSubscribe,
            Event::SessionEnded { .. } => phase is InSession,
            Event::SleepFinished => phase is Backoff,
        }
    }

    /// A clean stop: the one `Disconnected` status, then no more events.
    pub open spec fn spec_halt_disconnected(
        pre: StreamManager,
        post: StreamManager,
        emits: Seq<WebSocketStatus>,
        action: Action,
        act: Action,
    ) -> bool {
        &&& post.policy == pre.policy
        &&& post.phase == Phase::Halted
        &&& post.status is Disconnected
        &&& post.has_credential == pre.has_credential
        &&& emits.len() == 1
        &&& emits[0] is Disconnected
        &&& action == act
    }

    /// A fresh connection attempt is announced and requested.
    pub open spec fn spec_begin_connecting(
        pre: StreamManager,
        post: StreamManager,
        emits: Seq<WebSocketStatus>,
        action: Action,
    ) -> bool {
        &&& post.policy == pre.policy
        &&& post.phase == Phase::AwaitingConnect
        &&& post.status is Connecting
        &&& post.has_credential == pre.has_credential
        &&& emits.len() == 1
        &&& emits[0] is Connecting
        &&& action == Action::Connect
    }

    /// The retry decision after a recoverable failure: while the budget
    /// lasts, one attempt is recorded and a backoff sleep is requested —
    /// the delay is read before the attempt is recorded, so the five
    /// retries wait 2, 4, 8, 16 and 32 seconds.  Once the budget is
    /// exhausted, the engine halts with a terminal, non-recoverable
    /// error.  (The status mirror is stated by each caller, since a
    /// connect failure records the message first.)
    pub open spec fn spec_retry_budget(
        pre: StreamManager,
        post: StreamManager,
        emits: Seq<WebSocketStatus>,
        action: Action,
    ) -> bool {
        &&& post.has_credential == pre.has_credential
        &&& if pre.policy.spec_should_retry() {
            &&& post.policy == (ReconnectionPolicy {
                current_attempt: (pre.policy.current_attempt + 1) as u32,
                ..pre.policy
            })
            &&& post.phase == Phase::Backoff
            &&& emits.len() == 1
            &&& (emits[0] matches WebSocketStatus::Reconnecting { attempt, next_retry_secs }
                && attempt == pre.policy.current_attempt + 1
                && next_retry_secs == ReconnectionPolicy::spec_delay(
                    pre.policy.current_attempt as nat,
                ))
            &&& (action matches Action::Sleep { delay_secs } && delay_secs
                == ReconnectionPolicy::spec_delay(pre.policy.current_attempt as nat))
        } else {
            &&& post.policy == pre.policy
            &&& post.phase == Phase::Halted
            &&& emits.len() == 1
            &&& (emits[0] matches WebSocketStatus::Error { message, recoverable }
                && message@ == "Failed to connect after 5 attempts"@ && !recoverable)
            &&& action == Action::Halt
        }
    }

    /// On the retry path the status mirror is left as it was; on
    /// exhaustion it records the terminal error.
    pub open spec fn spec_retry_status(
        pre: StreamManager,
        post: StreamManager,
    ) -> bool {
        &&& pre.policy.spec_should_retry() ==> post.status == pre.status
        &&& !pre.policy.spec_should_retry() ==> (post.status matches ConnectionStatus::Error(m)
            && m@ == "Failed to connect after 5 attempts"@)
    }

    /// The whole transition relation of the engine, one case per event.
    pub open spec fn spec_step_post(
        pre: StreamManager,
        event: Event,
        stop: bool,
        post: StreamManager,
        emits: Seq<WebSocketStatus>,
        action: Action,
    ) -> bool {
        match event {
            Event::Start => {
                if !pre.has_credential {
                    // A missing or empty credential is a configuration
                    // error: fatal, surfaced once, no connection attempted.
                    &&& post.policy == pre.policy
                    &&& post.phase == Phase::Halted
                    &&& post.has_credential == pre.has_credential
                    &&& (post.status matches ConnectionStatus::Error(m)
                        && m@ == "No API key configured. Set FINNHUB_API_KEY environment variable."@)
                    &&& emits.len() == 1
                    &&& (emits[0] matches WebSocketStatus::Error { message, recoverable }
                        && message@
                            == "No API key configured. Set FINNHUB_API_KEY environment variable."@
                        && !recoverable)
                    &&& action == Action::Halt
                } else if stop {
                    Self::spec_halt_disconnected(pre, post, emits, action, Action::Halt)
                } else {
                    Self::spec_begin_connecting(pre, post, emits, action)
                }
            },
            Event::SleepFinished => {
                if stop {
                    Self::spec_halt_disconnected(pre, post, emits, action, Action::Halt)
                } else {
                    Self::spec_begin_connecting(pre, post, emits, action)
                }
            },
            Event::ConnectSucceeded { since_millis } => {
                // Success clears the retry budget before anything else.
                &&& post.policy == (ReconnectionPolicy { current_attempt: 0, ..pre.policy })
                &&& post.phase == Phase::AwaitingSubscribe
                &&& post.status is Connected
                &&& post.has_credential == pre.has_credential
                &&& emits.len() == 1
                &&& emits[0] == (WebSocketStatus::Connected { since_millis })
                &&& action == Action::Subscribe
            },
            Event::ConnectFailed { message } => {
                if spec_fatal_message(message@) {
                    &&& post.policy == pre.policy
                    &&& post.phase == Phase::Halted
                    &&& post.has_credential == pre.has_credential
                    &&& (post.status matches ConnectionStatus::Error(m) && m@ == message@)
                    &&& emits.len() == 1
                    &&& (emits[0] matches WebSocketStatus::Error { message: m, recoverable }
                        && m@ == "Authentication failed"@ && !recoverable)
                    &&& action == Action::Halt
                } else {
                    &&& Self::spec_retry_budget(pre, post, emits, action)
                    &&& pre.policy.spec_should_retry() ==> (post.status
                        matches ConnectionStatus::Error(m) && m@ == message@)
                    &&& !pre.policy.spec_should_retry() ==> (post.status
                        matches ConnectionStatus::Error(m)
                        && m@ == "Failed to connect after 5 attempts"@)
                }
            },
            Event::SubscribeSucceeded => {
                &&& post == (StreamManager { phase: Phase::InSession, ..pre })
                &&& emits.len() == 0
                &&& action == Action::RunSession
            },
            Event::SubscribeFailed => {
                // A subscribe failure is always recoverable: it counts as
                // an in-session error, so the whole session is retried
                // through the backoff budget — never in a tight loop.
                &&& emits.len() == 2
                &&& (emits[0] matches WebSocketStatus::Error { message, recoverable }
                    && message@ == "Subscription failed"@ && recoverable)
                &&& if stop {
                    Self::spec_halt_disconnected(
                        pre,
                        post,
                        emits.subrange(1, 2),
                        action,
                        Action::Halt,
                    )
                } else {
                    &&& Self::spec_retry_budget(pre, post, emits.subrange(1, 2), action)
                    &&& pre.policy.spec_should_retry() ==> (post.status
                        matches ConnectionStatus::Error(m) && m@ == "Subscription failed"@)
                    &&& !pre.policy.spec_should_retry() ==> (post.status
                        matches ConnectionStatus::Error(m)
                        && m@ == "Failed to connect after 5 attempts"@)
                }
            },
            Event::SessionEnded { outcome } => {
                if stop {
                    // The stop was requested while connected: unsubscribe,
                    // announce the clean stop, and never retry.
                    Self::spec_halt_disconnected(
                        pre,
                        post,
                        emits,
                        action,
                        Action::UnsubscribeThenHalt,
                    )
                } else {
                    match outcome {
                        SessionOutcome::Error { message } => {
                            if spec_fatal_message(message@) {
                                &&& post.policy == pre.policy
                                &&& post.phase == Phase::Halted
                                &&& post.has_credential == pre.has_credential
                                &&& (post.status matches ConnectionStatus::Error(m)
                                    && m@ == message@)
                                &&& emits.len() == 1
                                &&& (emits[0] matches WebSocketStatus::Error {
                                    message: m,
                                    recoverable,
                                } && m@ == message@ && !recoverable)
                                &&& action == Action::Halt
                            } else {
                                &&& Self::spec_retry_budget(pre, post, emits, action)
                                &&& Self::spec_retry_status(pre, post)
                            }
                        },
                        SessionOutcome::Disconnected => {
                            &&& Self::spec_retry_budget(pre, post, emits, action)
                            &&& Self::spec_retry_status(pre, post)
                        },
                    }
                }
            },
        }
    }

    /// A fresh engine for one subscription.  `has_credential` says whether
    /// a non-empty credential was supplied; without one the first step
    /// halts with a configuration error.
    pub fn new(has_credential: bool) -> (r: Self)
        ensures
            r.wf(),
            r.phase == Phase::Idle,
            r.policy.current_attempt == 0,
            r.has_credential == has_credential,
            r.status is Disconnected,
    {
        StreamManager {
            policy: ReconnectionPolicy::new(),
            phase: Phase::Idle,
            has_credential,
            status: ConnectionStatus::Disconnected,
        }
    }

    /// Answers one event with the statuses to publish and the next action.
    /// `stop_requested` is the value of the shared stop flag the caller
    /// observed when the event happened.
    pub fn step(&mut self, event: Event, stop_requested: bool) -> (r: StepResult)
        requires
            old(self).wf(),
            Self::spec_accepts(old(self).phase, event),
        ensures
            final(self).wf(),
            Self::spec_step_post(
                *old(self),
                event,
                stop_requested,
                *final(self),
                r.emits@,
                r.action,
            ),
    {
        match event {
            Event::Start => {
                if !self.has_credential {
                    let mut emits: Vec<WebSocketStatus> = Vec::new();
                    emits.push(WebSocketStatus::Error {
                        message:
                            "No API key configured. Set FINNHUB_API_KEY environment variable."
                            .to_owned(),
                        recoverable: false,
                    });
                    self.status = ConnectionStatus::Error(
                        "No API key configured. Set FINNHUB_API_KEY environment variable."
                            .to_owned(),
                    );
                    self.phase = Phase::Halted;
                    StepResult { emits, action: Action::Halt }
                } else if stop_requested {
                    self.halt_disconnected(Action::Halt)
                } else {
                    self.begin_connecting()
                }
            },
            Event::SleepFinished => {
                if stop_requested {
                    self.halt_disconnected(Action::Halt)
                } else {
                    self.begin_connecting()
                }
            },
            Event::ConnectSucceeded { since_millis } => {
                self.policy.reset();
                self.status = ConnectionStatus::Connected;
                self.phase = Phase::AwaitingSubscribe;
                let mut emits: Vec<WebSocketStatus> = Vec::new();
                emits.push(WebSocketStatus::Connected { since_millis });
                StepResult { emits, action: Action::Subscribe }
            },
            Event::ConnectFailed { message } => {
                let fatal = is_fatal_error(message.as_str());
                if fatal {
                    self.status = ConnectionStatus::Error(message);
                    self.phase = Phase::Halted;
                    let mut emits: Vec<WebSocketStatus> = Vec::new();
                    emits.push(WebSocketStatus::Error {
                        message: "Authentication failed".to_owned(),
                        recoverable: false,
                    });
                    StepResult { emits, action: Action::Halt }
                } else {
                    self.status = ConnectionStatus::Error(message);
                    self.enter_retry()
                }
            },
            Event::SubscribeSucceeded => {
                self.phase = Phase::InSession;
                StepResult { emits: Vec::new(), action: Action::RunSession }
            },
            Event::SubscribeFailed => {
                let mut emits: Vec<WebSocketStatus> = Vec::new();
                emits.push(WebSocketStatus::Error {
                    message: "Subscription failed".to_owned(),
                    recoverable: true,
                });
                let rest = if stop_requested {
                    self.halt_disconnected(Action::Halt)
                } else {
                    self.status = ConnectionStatus::Error("Subscription failed".to_owned());
                    self.enter_retry()
                };
                let ghost rest_seq = rest.emits@;
                let mut rest_emits = rest.emits;
                let tail = rest_emits.pop().unwrap();
                emits.push(tail);
                proof {
                    assert(emits@.subrange(1, 2) =~= rest_seq);
                }
                StepResult { emits, action: rest.action }
            },
            Event::SessionEnded { outcome } => {
                if stop_requested {
                    self.halt_disconnected(Action::UnsubscribeThenHalt)
                } else {
                    match outcome {
                        SessionOutcome::Error { message } => {
                            let fatal = is_fatal_error(message.as_str());
                            if fatal {
                                let mut emits: Vec<WebSocketStatus> = Vec::new();
                                emits.push(WebSocketStatus::Error {
                                    message: message.clone(),
                                    recoverable: false,
                                });
                                self.status = ConnectionStatus::Error(message);
                                self.phase = Phase::Halted;
                                StepResult { emits, action: Action::Halt }
                            } else {
                                self.enter_retry()
                            }
                        },
                        SessionOutcome::Disconnected => self.enter_retry(),
                    }
                }
            },
        }
    }

    /// A fatal error — one whose message carries authentication
    /// vocabulary — never schedules a retry, whether it happened at
    /// connect time or in the stream: nothing emitted is `Reconnecting`,
    /// and the engine halts at once.
    pub proof fn lemma_fatal_error_never_reconnects(
        pre: StreamManager,
        message: String,
        stop: bool,
        post: StreamManager,
        emits: Seq<WebSocketStatus>,
        action: Action,
    )
        requires
            spec_fatal_message(message@),
            !stop,
            Self::spec_step_post(
                pre,
                Event::SessionEnded { outcome: SessionOutcome::Error { message } },
                stop,
                post,
                emits,
                action,
            ) || Self::spec_step_post(
                pre,
                Event::ConnectFailed { message },
                stop,
                post,
                emits,
                action,
            ),
        ensures
            forall|k: int| 0 <= k < emits.len() ==> !((#[trigger] emits[k]) is Reconnecting),
            action == Action::Halt,
            post.phase == Phase::Halted,
    {
    }

    /// An in-stream error whose message mentions `unauthorized` is always
    /// fatal, so it never produces a `Reconnecting` status.
    pub proof fn lemma_unauthorized_never_reconnects(
        pre: StreamManager,
        message: String,
        post: StreamManager,
        emits: Seq<WebSocketStatus>,
        action: Action,
    )
        requires
            crate::classify::spec_contains(
                encode_utf8(message@),
                crate::classify::marker_unauthorized(),
            ),
            Self::spec_step_post(
                pre,
                Event::SessionEnded { outcome: SessionOutcome::Error { message } },
                false,
                post,
                emits,
                action,
            ),
        ensures
            forall|k: int| 0 <= k < emits.len() ==> !((#[trigger] emits[k]) is Reconnecting),
            action == Action::Halt,
            post.phase == Phase::Halted,
    {
        crate::classify::lemma_unauthorized_is_fatal(encode_utf8(message@));
        Self::lemma_fatal_error_never_reconnects(pre, message, false, post, emits, action);
    }

    /// A stop observed at session end is terminal: the one status emitted
    /// is the clean `Disconnected`, and the halted engine answers no
    /// further event, so no `Reconnecting` or `Error` can ever follow it.
    pub proof fn lemma_stop_is_terminal(
        pre: StreamManager,
        outcome: SessionOutcome,
        post: StreamManager,
        emits: Seq<WebSocketStatus>,
        action: Action,
    )
        requires
            Self::spec_step_post(
                pre,
                Event::SessionEnded { outcome },
                true,
                post,
                emits,
                action,
            ),
        ensures
            emits.len() == 1,
            emits[0] is Disconnected,
            post.status is Disconnected,
            post.phase == Phase::Halted,
            action == Action::UnsubscribeThenHalt,
            forall|ev: Event| !Self::spec_accepts(post.phase, ev),
    {
        assert forall|ev: Event| !Self::spec_accepts(Phase::Halted, ev) by {
            match ev {
                Event::Start => {},
                Event::ConnectSucceeded { .. } => {},
                Event::ConnectFailed { .. } => {},
                Event::SubscribeSucceeded => {},
                Event::SubscribeFailed => {},
                Event::SessionEnded { .. } => {},
                Event::SleepFinished => {},
            }
        }
    }

    fn halt_disconnected(&mut self, act: Action) -> (r: StepResult)
        ensures
            Self::spec_halt_disconnected(*old(self), *final(self), r.emits@, r.action, act),
            final(self).policy == old(self).policy,
    {
        self.status = ConnectionStatus::Disconnected;
        self.phase = Phase::Halted;
        let mut emits: Vec<WebSocketStatus> = Vec::new();
        emits.push(WebSocketStatus::Disconnected);
        StepResult { emits, action: act }
    }

    fn begin_connecting(&mut self) -> (r: StepResult)
        ensures
            Self::spec_begin_connecting(*old(self), *final(self), r.emits@, r.action),
    {
        self.status = ConnectionStatus::Connecting;
        self.phase = Phase::AwaitingConnect;
        let mut emits: Vec<WebSocketStatus> = Vec::new();
        emits.push(WebSocketStatus::Connecting);
        StepResult { emits, action: Action::Connect }
    }

    fn enter_retry(&mut self) -> (r: StepResult)
        requires
            old(self).wf(),
        ensures
            final(self).wf(),
            Self::spec_retry_budget(*old(self), *final(self), r.emits@, r.action),
            Self::spec_retry_status(*old(self), *final(self)),
    {
        let mut emits: Vec<WebSocketStatus> = Vec::new();
        if self.policy.should_retry() {
            let delay = self.policy.calculate_delay();
            self.policy.increment();
            emits.push(WebSocketStatus::Reconnecting {
                attempt: self.policy.current_attempt,
                next_retry_secs: delay,
            });
            self.phase = Phase::Backoff;
            StepResult { emits, action: Action::Sleep { delay_secs: delay } }
        } else {
            emits.push(WebSocketStatus::Error {
                message: "Failed to connect after 5 attempts".to_owned(),
                recoverable: false,
            });
            self.status = ConnectionStatus::Error(
                "Failed to connect after 5 attempts".to_owned(),
            );
            self.phase = Phase::Halted;
            StepResult { emits, action: Action::Halt }
        }
    }
}

} // verus!
