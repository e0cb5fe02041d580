//! The session engine: the application state together with the table of its
//! streams.
//!
//! The engine is driven from two sides. The user's messages go in through
//! `update`; what the requests in flight report goes in through `report`.
//! After either, the table holds a stream for each session that the state
//! wants and for nothing else, and `sessions` lists the requests to keep in
//! flight.

use vstd::prelude::*;

use crate::events::{Error, ErrorModel, StreamEventModel};
use crate::gui::{
    effect_views, tagged, Effect, EffectModel, GuiModel, Message, MessageModel, OllamaGUI,
};
use crate::keyed::{holds, lemma_position_bounds, models};
use crate::multiplexer::{
    law_one_stream_per_identity, law_reconciled_serves_the_wanted, live, MultiplexerModel,
    SessionMultiplexer,
};
use crate::session::{Session, SessionModel, StreamSession};
use crate::session_id::{is_random_uuid, SessionId};

verus! {

/// What a request in flight reports.
#[derive(Debug, PartialEq, Eq)]
pub enum Report {
    /// The next bytes of the response.
    Chunk(Vec<u8>),
    /// The request could not be sent, or the response could not be read.
    Failed(Error),
    /// The response has ended.
    Closed,
}

/// The model of a `Report`.
pub enum ReportModel {
    Chunk(Seq<u8>),
    Failed(ErrorModel),
    Closed,
}

impl View for Report {
    type V = ReportModel;

    open spec fn view(&self) -> ReportModel {
        match self {
            Report::Chunk(bytes) => ReportModel::Chunk(bytes@),
            Report::Failed(error) => ReportModel::Failed(error@),
            Report::Closed => ReportModel::Closed,
        }
    }
}

impl Clone for Report {
    fn clone(&self) -> (copy: Report)
        ensures
            copy@ == self@,
    {
        match self {
            Report::Chunk(bytes) => Report::Chunk(bytes.clone()),
            Report::Failed(error) => Report::Failed(error.clone()),
            Report::Closed => Report::Closed,
        }
    }
}

/// The messages that hand tagged events to their owners, in order.
pub open spec fn tagged_messages(events: Seq<(SessionId, StreamEventModel)>) -> Seq<MessageModel> {
    events.map_values(|event: (SessionId, StreamEventModel)| tagged(event.0, event.1))
}

/// The model of a `SessionEngine`.
pub struct EngineModel {
    pub gui: GuiModel,
    pub table: MultiplexerModel,
}

impl EngineModel {
    /// No identity has two streams.
    pub open spec fn wf(self) -> bool {
        self.table.wf()
    }

    /// The engine around a state: a stream is opened for each session that the
    /// state wants.
    pub open spec fn opened(gui: GuiModel) -> EngineModel {
        EngineModel {
            gui,
            table: (MultiplexerModel { streams: Seq::empty() }).reconciled(gui.sessions()),
        }
    }

    /// The engine after a message, where `fresh` is the identity drawn for
    /// it: the state has taken the message, and the table is in line with the
    /// sessions that the state wants now.
    pub open spec fn updated(self, message: MessageModel, fresh: SessionId) -> EngineModel {
        let gui: GuiModel = self.gui.updated(message, fresh);
        EngineModel { gui, table: self.table.reconciled(gui.sessions()) }
    }

    /// The events that a report for the session `id` gives, tagged.
    pub open spec fn report_events(self, id: SessionId, report: ReportModel) -> Seq<
        (SessionId, StreamEventModel),
    > {
        match report {
            ReportModel::Chunk(chunk) => self.table.chunk_events(id, chunk),
            ReportModel::Failed(error) => self.table.failure_events(id, error),
            ReportModel::Closed => Seq::empty(),
        }
    }

    /// The table after a report for the session `id`, before the state has
    /// taken the events.
    pub open spec fn report_table(self, id: SessionId, report: ReportModel) -> MultiplexerModel {
        match report {
            ReportModel::Chunk(chunk) => self.table.fed(id, chunk),
            ReportModel::Failed(_) => self.table.ended(id),
            ReportModel::Closed => self.table.ended(id),
        }
    }

    /// The engine after a report for the session `id`: the state has taken
    /// the events of the report in order, and the table is in line with the
    /// sessions that the state wants now.
    pub open spec fn reported(self, id: SessionId, report: ReportModel) -> EngineModel {
        let gui: GuiModel = self.gui.after_all(
            tagged_messages(self.report_events(id, report)),
            SessionId { value: 0 },
        );
        EngineModel { gui, table: self.report_table(id, report).reconciled(gui.sessions()) }
    }

    /// What is to be done on disk after a report for the session `id`: the
    /// effect of each of its events, in order.
    pub open spec fn report_effects(self, id: SessionId, report: ReportModel) -> Seq<EffectModel> {
        self.gui.effects_of_all(
            tagged_messages(self.report_events(id, report)),
            SessionId { value: 0 },
        )
    }
}

/// The engine keeps at most one stream per identity, whatever it is told.
pub proof fn law_engine_stays_well_formed(
    engine: EngineModel,
    message: MessageModel,
    fresh: SessionId,
    id: SessionId,
    report: ReportModel,
)
    requires
        engine.wf(),
    ensures
        engine.updated(message, fresh).wf(),
        engine.reported(id, report).wf(),
{
    law_reconciled_serves_the_wanted(engine.table, engine.updated(message, fresh).gui.sessions());
    law_one_stream_per_identity(
        engine.table,
        SessionModel {
            id,
            url: Seq::empty(),
            kind: crate::session::SessionKindModel::Pull { model: Seq::empty() },
        },
        id,
        match report {
            ReportModel::Chunk(chunk) => chunk,
            _ => Seq::empty(),
        },
    );
    law_reconciled_serves_the_wanted(
        engine.report_table(id, report),
        engine.reported(id, report).gui.sessions(),
    );
}

/// The table follows the state: after a message, the engine holds a stream
/// for each session that the state wants and for no other identity.
pub proof fn law_table_follows_the_state(
    engine: EngineModel,
    message: MessageModel,
    fresh: SessionId,
    id: SessionId,
)
    requires
        engine.wf(),
    ensures
        engine.updated(message, fresh).table.knows(id) <==> holds::<Session>(
            engine.updated(message, fresh).gui.sessions(),
            id,
        ),
{
    let after = engine.updated(message, fresh);
    let wanted = after.gui.sessions();
    law_reconciled_serves_the_wanted(engine.table, wanted);
    lemma_position_bounds::<Session>(wanted, id);
    lemma_position_bounds::<StreamSession>(after.table.streams, id);
}

/// What is not wanted is silent: where the state wants no session for an
/// identity after a message, whatever is reported for that identity
/// afterwards gives no event, asks for nothing on disk, and leaves the state
/// as it is. So a download that was canceled stays away, whatever bytes still
/// arrive for it.
pub proof fn law_unwanted_is_silent(
    engine: EngineModel,
    message: MessageModel,
    fresh: SessionId,
    id: SessionId,
    report: ReportModel,
)
    requires
        engine.wf(),
        !holds::<Session>(engine.updated(message, fresh).gui.sessions(), id),
    ensures
        !engine.updated(message, fresh).table.knows(id),
        engine.updated(message, fresh).report_events(id, report) == Seq::<
            (SessionId, StreamEventModel),
        >::empty(),
        engine.updated(message, fresh).report_effects(id, report) == Seq::<EffectModel>::empty(),
        engine.updated(message, fresh).reported(id, report).gui == engine.updated(
            message,
            fresh,
        ).gui,
{
    law_table_follows_the_state(engine, message, fresh, id);
    let after = engine.updated(message, fresh);
    assert(tagged_messages(after.report_events(id, report)) == Seq::<MessageModel>::empty());
}

/// The application state together with the table of its streams.
#[derive(Debug)]
pub struct SessionEngine {
    gui: OllamaGUI,
    table: SessionMultiplexer,
}

impl View for SessionEngine {
    type V = EngineModel;

    closed spec fn view(&self) -> EngineModel {
        EngineModel { gui: self.gui@, table: self.table@ }
    }
}

impl SessionEngine {
    /// The engine around a state.
    pub fn new(gui: OllamaGUI) -> (engine: SessionEngine)
        ensures
            engine@ == EngineModel::opened(gui@),
            engine@.wf(),
    {
        let mut table = SessionMultiplexer::new();
        proof {
            law_reconciled_serves_the_wanted(table@, gui@.sessions());
        }
        table.reconcile(gui.subscription());
        SessionEngine { gui, table }
    }

    /// The application state.
    pub fn gui(&self) -> (gui: &OllamaGUI)
        ensures
            gui@ == self@.gui,
    {
        &self.gui
    }

    /// The sessions whose streams are running: the requests to keep in flight.
    pub fn sessions(&self) -> (running: Vec<Session>)
        ensures
            models(running@) == live(self@.table.streams),
    {
        self.table.sessions()
    }

    /// Applies a message, drawing a fresh random identity where the message
    /// needs one, and returns what is to be done on disk.
    pub fn update(&mut self, message: Message) -> (effect: Effect)
        ensures
            exists|fresh: SessionId|
                final(self)@ == #[trigger] old(self)@.updated(message@, fresh)
                    && (old(self)@.gui.draws_identity(message@) ==> is_random_uuid(fresh.value)),
            effect@ == old(self)@.gui.effect(message@),
    {
        let fresh = if self.gui.draws_identity(&message) {
            SessionId::random()
        } else {
            SessionId::nil()
        };
        self.update_with(message, fresh)
    }

    /// Applies a message, with `fresh` as the identity of what the message
    /// creates, and returns what is to be done on disk.
    pub fn update_with(&mut self, message: Message, fresh: SessionId) -> (effect: Effect)
        ensures
            final(self)@ == old(self)@.updated(message@, fresh),
            effect@ == old(self)@.gui.effect(message@),
    {
        let effect = self.gui.update_with(message, fresh);
        self.table.reconcile(self.gui.subscription());
        effect
    }

    /// Takes what the request of the session `id` reports, hands the events
    /// that it gives to the state, and returns what is to be done on disk, in
    /// order. What is reported for a session without a running stream gives
    /// nothing.
    pub fn report(&mut self, id: SessionId, report: Report) -> (effects: Vec<Effect>)
        ensures
            final(self)@ == old(self)@.reported(id, report@),
            effect_views(effects@) == old(self)@.report_effects(id, report@),
    {
        let ghost before = self.gui@;
        let events = match report {
            Report::Chunk(bytes) => self.table.feed(id, bytes.as_slice()),
            Report::Failed(error) => self.table.fail(id, error),
            Report::Closed => {
                self.table.finish(id);
                Vec::new()
            },
        };
        let ghost messages = tagged_messages(crate::multiplexer::tagged_views(events@));
        proof {
            assert(crate::multiplexer::tagged_views(events@) == old(self)@.report_events(
                id,
                report@,
            ));
        }
        let mut effects: Vec<Effect> = Vec::new();
        for event in it: events
            invariant
                tagged_messages(crate::multiplexer::tagged_views(it.seq())) == messages,
                self.table@ == old(self)@.report_table(id, report@),
                self.gui@ == before.after_all(
                    messages.take(it.index() as int),
                    SessionId { value: 0 },
                ),
                effect_views(effects@) == before.effects_of_all(
                    messages.take(it.index() as int),
                    SessionId { value: 0 },
                ),
        {
            let ghost done = effect_views(effects@);
            proof {
                assert(messages.take(it.index() + 1).drop_last() == messages.take(
                    it.index() as int,
                ));
                assert(messages.take(it.index() + 1).last() == tagged(event.0, event.1@));
            }
            let effect = self.gui.update_with(Message::from_event(event.0, event.1), SessionId::nil());
            effects.push(effect);
            proof {
                assert(effect_views(effects@) == done.push(effect@));
            }
        }
        proof {
            assert(messages.take(messages.len() as int) == messages);
        }
        self.table.reconcile(self.gui.subscription());
        effects
    }
}

} // verus!
