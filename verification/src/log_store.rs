//! Log lines of the development orchestrator, tagged by the service that
//! wrote them, with filtering by service.

use vstd::prelude::*;

verus! {

/// A service whose output the orchestrator shows.
#[derive(Debug, Clone, Copy, PartialEq, Eq, Structural)]
pub enum Service {
    /// The API server.
    Api,
    /// The web front end.
    Web,
    /// The shared `common` crate build.
    Common,
    /// The dev-tools crate build.
    DevTools,
    /// Documentation generation and serving.
    Docs,
    /// The orchestrator itself.
    System,
}

/// The uppercase label of a service.
pub open spec fn service_label(s: Service) -> Seq<char> {
    match s {
        Service::Api => seq!['A', 'P', 'I'],
        Service::Web => seq!['W', 'E', 'B'],
        Service::Common => seq!['C', 'O', 'M', 'M', 'O', 'N'],
        Service::DevTools => seq!['D', 'E', 'V', '-', 'T', 'O', 'O', 'L', 'S'],
        Service::Docs => seq!['D', 'O', 'C', 'S'],
        Service::System => seq!['S', 'Y', 'S', 'T', 'E', 'M'],
    }
}

/// Position of a service in the orchestrator's status row.
pub open spec fn service_slot(s: Service) -> int {
    match s {
        Service::Api => 0,
        Service::Web => 1,
        Service::Common => 2,
        Service::DevTools => 3,
        Service::Docs => 4,
        Service::System => 5,
    }
}

impl Service {
    /// The uppercase label shown in headers and log prefixes.
    pub fn label(&self) -> (r: &'static str)
        ensures
            r@ == service_label(*self),
    {
        match self {
            Service::Api => {
                proof {
                    reveal_strlit("API");
                    assert("API"@ =~= service_label(*self));
                }
                "API"
            },
            Service::Web => {
                proof {
                    reveal_strlit("WEB");
                    assert("WEB"@ =~= service_label(*self));
                }
                "WEB"
            },
            Service::Common => {
                proof {
                    reveal_strlit("COMMON");
                    assert("COMMON"@ =~= service_label(*self));
                }
                "COMMON"
            },
            Service::DevTools => {
                proof {
                    reveal_strlit("DEV-TOOLS");
                    assert("DEV-TOOLS"@ =~= service_label(*self));
                }
                "DEV-TOOLS"
            },
            Service::Docs => {
                proof {
                    reveal_strlit("DOCS");
                    assert("DOCS"@ =~= service_label(*self));
                }
                "DOCS"
            },
            Service::System => {
                proof {
                    reveal_strlit("SYSTEM");
                    assert("SYSTEM"@ =~= service_label(*self));
                }
                "SYSTEM"
            },
        }
    }

    /// The service's position in the status row (API first, system last).
    pub fn slot(&self) -> (i: usize)
        ensures
            i == service_slot(*self),
    {
        match self {
            Service::Api => 0,
            Service::Web => 1,
            Service::Common => 2,
            Service::DevTools => 3,
            Service::Docs => 4,
            Service::System => 5,
        }
    }
}

/// One log line and the service that wrote it.
#[derive(Debug, Clone)]
pub struct LogEntry {
    /// The service that wrote the line.
    pub service: Service,
    /// The line's text.
    pub line: String,
}

impl LogEntry {
    /// A field-by-field copy of the entry.
    pub fn duplicate(&self) -> (r: LogEntry)
        ensures
            r == *self,
    {
        LogEntry { service: self.service, line: self.line.clone() }
    }
}

/// The entries of `s` not written by `svc`, in order.
pub open spec fn without_service(s: Seq<LogEntry>, svc: Service) -> Seq<LogEntry>
    decreases s.len(),
{
    if s.len() == 0 {
        s
    } else if s.last().service == svc {
        without_service(s.drop_last(), svc)
    } else {
        without_service(s.drop_last(), svc).push(s.last())
    }
}

/// The entries of `s` written by `svc`, in order.
pub open spec fn only_service(s: Seq<LogEntry>, svc: Service) -> Seq<LogEntry>
    decreases s.len(),
{
    if s.len() == 0 {
        s
    } else if s.last().service == svc {
        only_service(s.drop_last(), svc).push(s.last())
    } else {
        only_service(s.drop_last(), svc)
    }
}

/// The entries a filter shows: all of them, or those of one service.
pub open spec fn shown(s: Seq<LogEntry>, filter: Option<Service>) -> Seq<LogEntry> {
    match filter {
        Some(svc) => only_service(s, svc),
        None => s,
    }
}

/// The entries a filtered clear keeps: none, or those of other services.
pub open spec fn kept_after_clear(s: Seq<LogEntry>, filter: Option<Service>) -> Seq<LogEntry> {
    match filter {
        Some(svc) => without_service(s, svc),
        None => Seq::empty(),
    }
}

/// Log entries in the order they arrived.
pub struct LogStore {
    entries: Vec<LogEntry>,
}

impl View for LogStore {
    type V = Seq<LogEntry>;

    closed spec fn view(&self) -> Seq<LogEntry> {
        self.entries@
    }
}

impl LogStore {
    /// An empty store.
    pub fn new() -> (s: LogStore)
        ensures
            s@ == Seq::<LogEntry>::empty(),
    {
        LogStore { entries: Vec::new() }
    }

    /// Appends an entry.
    pub fn push(&mut self, entry: LogEntry)
        ensures
            final(self)@ == old(self)@.push(entry),
    {
        self.entries.push(entry);
    }

    /// Removes every entry.
    pub fn clear(&mut self)
        ensures
            final(self)@ == Seq::<LogEntry>::empty(),
    {
        self.entries.clear();
    }

    /// Removes the entries of one service, or every entry when `service`
    /// is `None`; the others keep their order.
    pub fn clear_filtered(&mut self, service: Option<Service>)
        ensures
            final(self)@ == kept_after_clear(old(self)@, service),
    {
        match service {
            Some(svc) => {
                let mut kept: Vec<LogEntry> = Vec::new();
                let mut i: usize = 0;
                while i < self.entries.len()
                    invariant
                        i <= self.entries.len(),
                        kept@ == without_service(self.entries@.take(i as int), svc),
                    decreases self.entries.len() - i,
                {
                    proof {
                        assert(self.entries@.take(i + 1).drop_last() =~= self.entries@.take(
                            i as int,
                        ));
                    }
                    if self.entries[i].service != svc {
                        kept.push(self.entries[i].duplicate());
                    }
                    i += 1;
                }
                proof {
                    assert(self.entries@.take(self.entries.len() as int) =~= self.entries@);
                }
                self.entries = kept;
            },
            None => self.clear(),
        }
    }

    /// The entries a filter shows, in order: all of them, or those of one
    /// service.
    pub fn filtered(&self, service: Option<Service>) -> (r: Vec<&LogEntry>)
        ensures
            r@.map_values(|e: &LogEntry| *e) == shown(self@, service),
    {
        let mut out: Vec<&LogEntry> = Vec::new();
        let mut i: usize = 0;
        while i < self.entries.len()
            invariant
                i <= self.entries.len(),
                out@.map_values(|e: &LogEntry| *e) == shown(self.entries@.take(i as int), service),
            decreases self.entries.len() - i,
        {
            proof {
                assert(self.entries@.take(i + 1).drop_last() =~= self.entries@.take(i as int));
            }
            let keep = match service {
                Some(svc) => self.entries[i].service == svc,
                None => true,
            };
            if keep {
                out.push(&self.entries[i]);
            }
            proof {
                let t = self.entries@.take(i + 1);
                assert(t.last() == self.entries@[i as int]);
                match service {
                    Some(svc) => {},
                    None => {
                        assert(t =~= self.entries@.take(i as int).push(self.entries@[i as int]));
                    },
                }
                assert(out@.map_values(|e: &LogEntry| *e) =~= shown(t, service));
            }
            i += 1;
        }
        proof {
            assert(self.entries@.take(self.entries.len() as int) =~= self.entries@);
        }
        out
    }
}

/// After a filtered clear, the filter that was cleared shows nothing.
pub proof fn law_cleared_filter_shows_nothing(s: Seq<LogEntry>, filter: Option<Service>)
    ensures
        shown(kept_after_clear(s, filter), filter).len() == 0,
    decreases s.len(),
{
    if let Some(svc) = filter {
        lemma_only_without(s, svc);
    }
}

proof fn lemma_only_without(s: Seq<LogEntry>, svc: Service)
    ensures
        only_service(without_service(s, svc), svc).len() == 0,
    decreases s.len(),
{
    if s.len() > 0 {
        lemma_only_without(s.drop_last(), svc);
        let w = without_service(s.drop_last(), svc);
        if s.last().service != svc {
            assert(w.push(s.last()).drop_last() =~= w);
        }
    }
}

/// A filtered clear leaves the entries of every other service as they were.
pub proof fn law_clear_keeps_other_services(s: Seq<LogEntry>, svc: Service, other: Service)
    requires
        other != svc,
    ensures
        only_service(kept_after_clear(s, Some(svc)), other) == only_service(s, other),
    decreases s.len(),
{
    if s.len() > 0 {
        law_clear_keeps_other_services(s.drop_last(), svc, other);
        let w = without_service(s.drop_last(), svc);
        if s.last().service != svc {
            assert(w.push(s.last()).drop_last() =~= w);
        }
    }
}

} // verus!
