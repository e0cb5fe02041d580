//! The session multiplexer: the table of the streams that were opened.
//!
//! Each stream is keyed by its session identity, and no identity has two
//! streams. Whoever performs the requests reports to the multiplexer what
//! happens to each; it answers with the events of that stream, tagged with the
//! identity. A stream that has ended stays in the table, closed and silent,
//! until its session is not wanted any more: so nothing is requested twice.
//! What is reported for an identity that is not in the table gives no event.

use vstd::prelude::*;

use crate::events::{event_views, Error, ErrorModel, StreamEvent, StreamEventModel};
use crate::keyed::{
    distinct, find, holds, lemma_position, lemma_position_bounds, lemma_without,
    lemma_without_distinct, models, position, remove_all, without, Keyed,
};
use crate::session::{Session, SessionModel, StreamSession, StreamSessionModel};
use crate::session_id::SessionId;

verus! {

/// The events of a stream, each with the identity of the stream.
pub open spec fn tag_all(id: SessionId, events: Seq<StreamEventModel>) -> Seq<
    (SessionId, StreamEventModel),
> {
    events.map_values(|event: StreamEventModel| (id, event))
}

/// The models of tagged events, in order.
pub open spec fn tagged_views(events: Seq<(SessionId, StreamEvent)>) -> Seq<
    (SessionId, StreamEventModel),
> {
    events.map_values(|event: (SessionId, StreamEvent)| (event.0, event.1@))
}

/// The streams that are still wanted, in their order: those whose identity is
/// the identity of a wanted session.
pub open spec fn still_wanted(streams: Seq<StreamSessionModel>, wanted: Seq<SessionModel>) -> Seq<
    StreamSessionModel,
>
    decreases streams.len(),
{
    if streams.len() == 0 {
        Seq::empty()
    } else if holds::<Session>(wanted, streams.last().session.id) {
        still_wanted(streams.drop_last(), wanted).push(streams.last())
    } else {
        still_wanted(streams.drop_last(), wanted)
    }
}

/// The sessions of the streams that have not ended, in their order.
pub open spec fn live(streams: Seq<StreamSessionModel>) -> Seq<SessionModel>
    decreases streams.len(),
{
    if streams.len() == 0 {
        Seq::empty()
    } else if streams.last().closed {
        live(streams.drop_last())
    } else {
        live(streams.drop_last()).push(streams.last().session)
    }
}

/// The model of a `SessionMultiplexer`: the streams, in the order in which
/// they were started.
pub struct MultiplexerModel {
    pub streams: Seq<StreamSessionModel>,
}

impl MultiplexerModel {
    /// No identity has two streams.
    pub open spec fn wf(self) -> bool {
        distinct::<StreamSession>(self.streams)
    }

    /// Whether the table holds a stream for the identity `id`, open or ended.
    pub open spec fn knows(self, id: SessionId) -> bool {
        holds::<StreamSession>(self.streams, id)
    }

    /// The first stream for the identity `id`.
    pub open spec fn stream(self, id: SessionId) -> StreamSessionModel
        recommends
            self.knows(id),
    {
        self.streams[position::<StreamSession>(self.streams, id) as int]
    }

    /// Whether a stream for the identity `id` is running: it is in the table
    /// and has not ended.
    pub open spec fn is_active(self, id: SessionId) -> bool {
        self.knows(id) && !self.stream(id).closed
    }

    /// The table after `start`. Where a stream is running for the identity of
    /// the session, nothing changes. Else the session is opened behind the
    /// others, in place of a stream of that identity that has ended.
    pub open spec fn started(self, session: SessionModel) -> MultiplexerModel {
        if self.is_active(session.id) {
            self
        } else {
            MultiplexerModel {
                streams: without::<StreamSession>(self.streams, session.id).push(
                    StreamSessionModel::opened(session),
                ),
            }
        }
    }

    /// The table after `cancel`: it holds no stream for the identity.
    pub open spec fn canceled(self, id: SessionId) -> MultiplexerModel {
        MultiplexerModel { streams: without::<StreamSession>(self.streams, id) }
    }

    /// The table with `next` in place of the first stream for `id`.
    pub open spec fn with_stream(self, id: SessionId, next: StreamSessionModel) -> MultiplexerModel
        recommends
            self.knows(id),
    {
        MultiplexerModel {
            streams: self.streams.update(
                position::<StreamSession>(self.streams, id) as int,
                next,
            ),
        }
    }

    /// The events that a chunk of the response of `id` gives.
    pub open spec fn chunk_events(self, id: SessionId, chunk: Seq<u8>) -> Seq<
        (SessionId, StreamEventModel),
    > {
        if self.knows(id) {
            tag_all(id, self.stream(id).chunk_events(chunk))
        } else {
            Seq::empty()
        }
    }

    /// The table after a chunk of the response of `id`: the stream has ended
    /// where the chunk held a terminal event.
    pub open spec fn fed(self, id: SessionId, chunk: Seq<u8>) -> MultiplexerModel {
        if self.is_active(id) {
            self.with_stream(id, self.stream(id).fed(chunk))
        } else {
            self
        }
    }

    /// The events that a failure of the request of `id` gives.
    pub open spec fn failure_events(self, id: SessionId, error: ErrorModel) -> Seq<
        (SessionId, StreamEventModel),
    > {
        if self.knows(id) {
            tag_all(id, self.stream(id).failure_events(error))
        } else {
            Seq::empty()
        }
    }

    /// The table after the stream of `id` is over, by a failure or by the end
    /// of the response: the stream has ended.
    pub open spec fn ended(self, id: SessionId) -> MultiplexerModel {
        if self.knows(id) {
            self.with_stream(id, self.stream(id).ended())
        } else {
            self
        }
    }

    /// The table after the session was opened unless the table holds a stream
    /// for its identity, open or ended.
    pub open spec fn adopted(self, session: SessionModel) -> MultiplexerModel {
        if self.knows(session.id) {
            self
        } else {
            MultiplexerModel { streams: self.streams.push(StreamSessionModel::opened(session)) }
        }
    }

    /// The table after each of the sessions was adopted, in order.
    pub open spec fn adopted_all(self, sessions: Seq<SessionModel>) -> MultiplexerModel
        decreases sessions.len(),
    {
        if sessions.len() == 0 {
            self
        } else {
            self.adopted_all(sessions.drop_last()).adopted(sessions.last())
        }
    }

    /// The table after it was brought in line with the wanted sessions: the
    /// streams that are not wanted any more are dropped, and each wanted
    /// session without a stream is opened. A wanted stream that has ended
    /// stays as it is and is not opened anew.
    pub open spec fn reconciled(self, wanted: Seq<SessionModel>) -> MultiplexerModel {
        (MultiplexerModel { streams: still_wanted(self.streams, wanted) }).adopted_all(wanted)
    }
}

/// The streams that are still wanted were in the table, are wanted, and are
/// as they were; and every stream of the table that is wanted is among them.
pub proof fn lemma_still_wanted(streams: Seq<StreamSessionModel>, wanted: Seq<SessionModel>)
    ensures
        still_wanted(streams, wanted).len() <= streams.len(),
        forall|i: int|
            0 <= i < still_wanted(streams, wanted).len() ==> streams.contains(
                #[trigger] still_wanted(streams, wanted)[i],
            ) && holds::<Session>(wanted, still_wanted(streams, wanted)[i].session.id),
        forall|i: int|
            0 <= i < streams.len() && holds::<Session>(wanted, (#[trigger] streams[i]).session.id)
                ==> still_wanted(streams, wanted).contains(streams[i]),
        distinct::<StreamSession>(streams) ==> distinct::<StreamSession>(
            still_wanted(streams, wanted),
        ),
    decreases streams.len(),
{
    let left = still_wanted(streams, wanted);
    if streams.len() > 0 {
        let front = streams.drop_last();
        let kept = still_wanted(front, wanted);
        lemma_still_wanted(front, wanted);
        assert(streams[streams.len() - 1] == streams.last());
        assert forall|i: int| 0 <= i < left.len() implies streams.contains(#[trigger] left[i])
            && holds::<Session>(wanted, left[i].session.id) by {
            if i < kept.len() {
                assert(left[i] == kept[i]);
                assert(front.contains(kept[i]));
                let k: int = choose|k: int| 0 <= k < front.len() && front[k] == kept[i];
                assert(streams[k] == kept[i]);
            }
        }
        assert forall|i: int|
            0 <= i < streams.len() && holds::<Session>(
                wanted,
                (#[trigger] streams[i]).session.id,
            ) implies left.contains(streams[i]) by {
            if i < front.len() {
                assert(front[i] == streams[i]);
                assert(kept.contains(front[i]));
                let k: int = choose|k: int| 0 <= k < kept.len() && kept[k] == front[i];
                assert(left[k] == streams[i]);
            } else {
                assert(left[left.len() - 1] == streams[i]);
            }
        }
        if distinct::<StreamSession>(streams) {
            assert(distinct::<StreamSession>(front)) by {
                assert forall|i: int, j: int| 0 <= i < j < front.len() implies StreamSession::key_of(
                    #[trigger] front[i],
                ) != StreamSession::key_of(#[trigger] front[j]) by {
                    assert(front[i] == streams[i] && front[j] == streams[j]);
                }
            }
            assert forall|i: int, j: int| 0 <= i < j < left.len() implies StreamSession::key_of(
                #[trigger] left[i],
            ) != StreamSession::key_of(#[trigger] left[j]) by {
                if j < kept.len() {
                    assert(left[i] == kept[i] && left[j] == kept[j]);
                } else {
                    assert(left[i] == kept[i]);
                    assert(front.contains(kept[i]));
                    let k: int = choose|k: int| 0 <= k < front.len() && front[k] == kept[i];
                    assert(streams[k] == kept[i]);
                }
            }
        }
    }
}

/// A stream behind a list that does not hold its identity: the list with it
/// holds no identity twice where the list held none twice, and the stream is
/// found at the end.
pub proof fn lemma_push_absent(streams: Seq<StreamSessionModel>, next: StreamSessionModel)
    requires
        !holds::<StreamSession>(streams, next.session.id),
    ensures
        position::<StreamSession>(streams.push(next), next.session.id) == streams.len(),
        distinct::<StreamSession>(streams) ==> distinct::<StreamSession>(streams.push(next)),
{
    let longer = streams.push(next);
    lemma_position_bounds::<StreamSession>(streams, next.session.id);
    assert forall|j: int| 0 <= j < streams.len() implies StreamSession::key_of(
        #[trigger] longer[j],
    ) != next.session.id by {
        assert(longer[j] == streams[j]);
    }
    lemma_position::<StreamSession>(longer, next.session.id, streams.len() as int);
    if distinct::<StreamSession>(streams) {
        assert forall|i: int, j: int| 0 <= i < j < longer.len() implies StreamSession::key_of(
            #[trigger] longer[i],
        ) != StreamSession::key_of(#[trigger] longer[j]) by {
            assert(longer[i] == streams[i]);
            if j < streams.len() {
                assert(longer[j] == streams[j]);
            }
        }
    }
}

/// At most one stream per identity, whatever happens: a table that is well
/// formed stays so when a session is started, when an identity is canceled,
/// when a chunk or a failure is reported, and when a response ends.
pub proof fn law_one_stream_per_identity(
    table: MultiplexerModel,
    session: SessionModel,
    id: SessionId,
    chunk: Seq<u8>,
)
    requires
        table.wf(),
    ensures
        table.started(session).wf(),
        table.adopted(session).wf(),
        table.canceled(id).wf(),
        table.fed(id, chunk).wf(),
        table.ended(id).wf(),
{
    let streams = table.streams;
    assert(table.started(session).wf()) by {
        lemma_without_distinct::<StreamSession>(streams, session.id);
        lemma_without::<StreamSession>(streams, session.id);
        lemma_push_absent(
            without::<StreamSession>(streams, session.id),
            StreamSessionModel::opened(session),
        );
    }
    assert(table.adopted(session).wf()) by {
        if !table.knows(session.id) {
            lemma_push_absent(streams, StreamSessionModel::opened(session));
        }
    }
    assert(table.canceled(id).wf()) by {
        lemma_without_distinct::<StreamSession>(streams, id);
    }
    if table.knows(id) {
        let at: int = position::<StreamSession>(streams, id) as int;
        lemma_position_bounds::<StreamSession>(streams, id);
        assert forall|next: StreamSessionModel| next.session.id == id implies distinct::<
            StreamSession,
        >(#[trigger] streams.update(at, next)) by {
            let changed = streams.update(at, next);
            assert forall|i: int, j: int| 0 <= i < j < changed.len() implies StreamSession::key_of(
                #[trigger] changed[i],
            ) != StreamSession::key_of(#[trigger] changed[j]) by {
                assert(StreamSession::key_of(changed[i]) == StreamSession::key_of(streams[i]));
                assert(StreamSession::key_of(changed[j]) == StreamSession::key_of(streams[j]));
            }
        }
        assert(distinct::<StreamSession>(streams.update(at, table.stream(id).fed(chunk))));
        assert(distinct::<StreamSession>(streams.update(at, table.stream(id).ended())));
    }
}

/// Adopting sessions keeps a well-formed table well formed, gives each of them
/// a stream, and leaves every stream of the table as it was.
pub proof fn lemma_adopted_all(table: MultiplexerModel, sessions: Seq<SessionModel>)
    requires
        table.wf(),
    ensures
        table.adopted_all(sessions).wf(),
        table.streams.len() <= table.adopted_all(sessions).streams.len(),
        forall|i: int|
            0 <= i < table.streams.len() ==> (#[trigger] table.adopted_all(sessions).streams[i])
                == table.streams[i],
        forall|i: int|
            0 <= i < sessions.len() ==> table.adopted_all(sessions).knows(
                (#[trigger] sessions[i]).id,
            ),
        forall|i: int|
            table.streams.len() <= i < table.adopted_all(sessions).streams.len() ==> {
                &&& holds::<Session>(
                    sessions,
                    (#[trigger] table.adopted_all(sessions).streams[i]).session.id,
                )
                &&& !table.adopted_all(sessions).streams[i].closed
            },
    decreases sessions.len(),
{
    if sessions.len() > 0 {
        let front = sessions.drop_last();
        let last = sessions.last();
        let before = table.adopted_all(front);
        let after = before.adopted(last);
        lemma_adopted_all(table, front);
        law_one_stream_per_identity(before, last, last.id, Seq::empty());
        assert(sessions[sessions.len() - 1] == last);
        if !before.knows(last.id) {
            lemma_push_absent(before.streams, StreamSessionModel::opened(last));
        }
        assert forall|i: int| 0 <= i < sessions.len() implies after.knows(
            (#[trigger] sessions[i]).id,
        ) by {
            let wanted = sessions[i].id;
            if i < front.len() {
                assert(front[i] == sessions[i]);
                assert(before.knows(wanted));
                if !before.knows(last.id) {
                    lemma_position_bounds::<StreamSession>(before.streams, wanted);
                    let found: int = position::<StreamSession>(before.streams, wanted) as int;
                    assert forall|j: int| 0 <= j < found implies StreamSession::key_of(
                        #[trigger] after.streams[j],
                    ) != wanted by {
                        assert(after.streams[j] == before.streams[j]);
                    }
                    assert(after.streams[found] == before.streams[found]);
                    lemma_position::<StreamSession>(after.streams, wanted, found);
                }
            }
        }
        assert forall|i: int| table.streams.len() <= i < after.streams.len() implies {
            &&& holds::<Session>(sessions, (#[trigger] after.streams[i]).session.id)
            &&& !after.streams[i].closed
        } by {
            let served = after.streams[i].session.id;
            if i < before.streams.len() {
                assert(after.streams[i] == before.streams[i]);
                assert(holds::<Session>(front, served));
                lemma_position_bounds::<Session>(front, served);
                let found: int = position::<Session>(front, served) as int;
                assert forall|j: int| 0 <= j < found implies Session::key_of(
                    #[trigger] sessions[j],
                ) != served by {
                    assert(sessions[j] == front[j]);
                }
                assert(sessions[found] == front[found]);
                lemma_position::<Session>(sessions, served, found);
            } else {
                lemma_position_bounds::<Session>(sessions, served);
                if !holds::<Session>(sessions, served) {
                    assert(Session::key_of(sessions[sessions.len() - 1]) != served);
                }
            }
        }
    }
}

/// After the table was brought in line with the wanted sessions it is well
/// formed, it holds a stream for every wanted session and for nothing else,
/// and every stream that was in it and is still wanted is in it as it was: no
/// stream that stays is opened anew.
pub proof fn law_reconciled_serves_the_wanted(table: MultiplexerModel, wanted: Seq<SessionModel>)
    requires
        table.wf(),
    ensures
        table.reconciled(wanted).wf(),
        forall|i: int|
            0 <= i < wanted.len() ==> table.reconciled(wanted).knows((#[trigger] wanted[i]).id),
        forall|i: int|
            0 <= i < table.reconciled(wanted).streams.len() ==> holds::<Session>(
                wanted,
                (#[trigger] table.reconciled(wanted).streams[i]).session.id,
            ),
        forall|i: int|
            0 <= i < table.streams.len() && holds::<Session>(
                wanted,
                (#[trigger] table.streams[i]).session.id,
            ) ==> table.reconciled(wanted).streams.contains(table.streams[i]),
{
    let kept = MultiplexerModel { streams: still_wanted(table.streams, wanted) };
    let after = table.reconciled(wanted);
    lemma_still_wanted(table.streams, wanted);
    lemma_adopted_all(kept, wanted);
    assert forall|i: int| 0 <= i < after.streams.len() implies holds::<Session>(
        wanted,
        (#[trigger] after.streams[i]).session.id,
    ) by {
        if i < kept.streams.len() {
            assert(after.streams[i] == kept.streams[i]);
        }
    }
    assert forall|i: int|
        0 <= i < table.streams.len() && holds::<Session>(
            wanted,
            (#[trigger] table.streams[i]).session.id,
        ) implies after.streams.contains(table.streams[i]) by {
        assert(kept.streams.contains(table.streams[i]));
        let k: int = choose|k: int|
            0 <= k < kept.streams.len() && kept.streams[k] == table.streams[i];
        assert(after.streams[k] == table.streams[i]);
    }
}

/// A canceled session is silent: whatever is reported for its identity after
/// the cancellation gives no event and changes nothing.
pub proof fn law_canceled_is_silent(
    table: MultiplexerModel,
    id: SessionId,
    chunk: Seq<u8>,
    error: ErrorModel,
)
    ensures
        !table.canceled(id).knows(id),
        table.canceled(id).chunk_events(id, chunk) == Seq::<(SessionId, StreamEventModel)>::empty(),
        table.canceled(id).failure_events(id, error) == Seq::<
            (SessionId, StreamEventModel),
        >::empty(),
        table.canceled(id).fed(id, chunk) == table.canceled(id),
        table.canceled(id).ended(id) == table.canceled(id),
{
    lemma_without::<StreamSession>(table.streams, id);
}

/// A stream that has ended is silent: a chunk or a failure reported for it
/// gives no event, and the stream stays ended.
pub proof fn law_ended_is_silent(
    table: MultiplexerModel,
    id: SessionId,
    chunk: Seq<u8>,
    error: ErrorModel,
)
    requires
        table.knows(id),
        table.stream(id).closed,
    ensures
        table.chunk_events(id, chunk) == Seq::<(SessionId, StreamEventModel)>::empty(),
        table.failure_events(id, error) == Seq::<(SessionId, StreamEventModel)>::empty(),
        table.fed(id, chunk) == table,
        table.ended(id) == table,
{
    let at: int = position::<StreamSession>(table.streams, id) as int;
    assert(table.streams.update(at, table.streams[at]) == table.streams);
    assert(table.stream(id).ended() == table.stream(id));
}

/// Starting a session twice is starting it once: the second `start` finds the
/// stream of the first running and changes nothing.
pub proof fn law_start_twice_is_start_once(table: MultiplexerModel, session: SessionModel)
    ensures
        table.started(session).is_active(session.id),
        table.started(session).started(session) == table.started(session),
{
    if !table.is_active(session.id) {
        lemma_without::<StreamSession>(table.streams, session.id);
        lemma_push_absent(
            without::<StreamSession>(table.streams, session.id),
            StreamSessionModel::opened(session),
        );
    }
}

/// The table of the streams that were opened.
#[derive(Debug)]
pub struct SessionMultiplexer {
    streams: Vec<StreamSession>,
}

impl View for SessionMultiplexer {
    type V = MultiplexerModel;

    closed spec fn view(&self) -> MultiplexerModel {
        MultiplexerModel { streams: models(self.streams@) }
    }
}

/// Tags the events of the stream `id`.
fn tag_events(id: SessionId, events: Vec<StreamEvent>) -> (tagged: Vec<(SessionId, StreamEvent)>)
    ensures
        tagged_views(tagged@) == tag_all(id, event_views(events@)),
{
    let ghost wanted = tag_all(id, event_views(events@));
    let mut tagged: Vec<(SessionId, StreamEvent)> = Vec::new();
    for event in it: events
        invariant
            tag_all(id, event_views(it.seq())) == wanted,
            tagged_views(tagged@) == wanted.take(it.index() as int),
    {
        let ghost done = tagged_views(tagged@);
        tagged.push((id, event));
        proof {
            assert(tagged_views(tagged@) == done.push((id, event@)));
            assert(wanted.take(it.index() + 1) == wanted.take(it.index() as int).push(
                (id, event@),
            ));
        }
    }
    proof {
        assert(wanted.take(wanted.len() as int) == wanted);
    }
    tagged
}

impl SessionMultiplexer {
    /// A table without streams.
    pub fn new() -> (table: SessionMultiplexer)
        ensures
            table@.streams == Seq::<StreamSessionModel>::empty(),
            table@.wf(),
    {
        let table = SessionMultiplexer { streams: Vec::new() };
        proof {
            assert(table@.streams =~= Seq::empty());
        }
        table
    }

    /// The streams, in the order in which they were started.
    pub fn streams(&self) -> (streams: &Vec<StreamSession>)
        ensures
            models(streams@) == self@.streams,
    {
        &self.streams
    }

    /// The sessions whose streams are running, in the order in which they
    /// were started: the requests to keep in flight.
    pub fn sessions(&self) -> (running: Vec<Session>)
        ensures
            models(running@) == live(self@.streams),
    {
        let ghost all = models(self.streams@);
        let mut running: Vec<Session> = Vec::new();
        let mut at: usize = 0;
        while at < self.streams.len()
            invariant
                at <= self.streams.len(),
                all == models(self.streams@),
                models(running@) == live(all.take(at as int)),
            decreases self.streams.len() - at,
        {
            let ghost done = models(running@);
            proof {
                assert(all.take(at + 1).drop_last() == all.take(at as int));
                assert(all.take(at + 1).last() == self.streams@[at as int]@);
            }
            if !self.streams[at].is_closed() {
                let session = self.streams[at].session().clone();
                running.push(session);
                proof {
                    assert(models(running@) == done.push(session@));
                }
            }
            at += 1;
        }
        proof {
            assert(all.take(at as int) == all);
        }
        running
    }

    /// Whether a stream for the identity `id` is running.
    pub fn is_active(&self, id: SessionId) -> (active: bool)
        ensures
            active == self@.is_active(id),
    {
        match find(&self.streams, id) {
            Some(at) => !self.streams[at].is_closed(),
            None => false,
        }
    }

    /// Opens a stream for the session, unless one is running for its identity:
    /// then nothing changes, and the stream that is running goes on. Says
    /// whether a stream was opened.
    pub fn start(&mut self, session: Session) -> (started: bool)
        ensures
            final(self)@ == old(self)@.started(session@),
            started == !old(self)@.is_active(session@.id),
    {
        if self.is_active(session.id) {
            return false;
        }
        remove_all(&mut self.streams, session.id);
        let ghost before = models(self.streams@);
        let stream = StreamSession::open(session);
        self.streams.push(stream);
        proof {
            assert(models(self.streams@) == before.push(stream@));
        }
        true
    }

    /// Drops the streams of the identity `id`. What is reported for it
    /// afterwards gives no event. Says whether the table held one.
    pub fn cancel(&mut self, id: SessionId) -> (canceled: bool)
        ensures
            final(self)@ == old(self)@.canceled(id),
            canceled == old(self)@.knows(id),
            !final(self)@.knows(id),
    {
        let canceled = remove_all(&mut self.streams, id);
        proof {
            lemma_without::<StreamSession>(old(self)@.streams, id);
        }
        canceled
    }

    /// Takes one chunk of the response of `id` and gives its events, tagged.
    pub fn feed(&mut self, id: SessionId, chunk: &[u8]) -> (events: Vec<(SessionId, StreamEvent)>)
        ensures
            tagged_views(events@) == old(self)@.chunk_events(id, chunk@),
            final(self)@ == old(self)@.fed(id, chunk@),
    {
        match find(&self.streams, id) {
            Some(at) => {
                let ghost before = models(self.streams@);
                let events = self.streams[at].feed(chunk);
                proof {
                    assert(models(self.streams@) == before.update(
                        at as int,
                        self.streams@[at as int]@,
                    ));
                    assert(before.update(at as int, before[at as int]) == before);
                }
                tag_events(id, events)
            },
            None => Vec::new(),
        }
    }

    /// Takes a failure of the request of `id` and gives the event that reports
    /// it, tagged. The stream has ended afterwards.
    pub fn fail(&mut self, id: SessionId, error: Error) -> (events: Vec<(SessionId, StreamEvent)>)
        ensures
            tagged_views(events@) == old(self)@.failure_events(id, error@),
            final(self)@ == old(self)@.ended(id),
    {
        match find(&self.streams, id) {
            Some(at) => {
                let ghost before = models(self.streams@);
                let events = self.streams[at].fail(error);
                proof {
                    assert(models(self.streams@) == before.update(
                        at as int,
                        self.streams@[at as int]@,
                    ));
                }
                tag_events(id, events)
            },
            None => Vec::new(),
        }
    }

    /// Takes the end of the response of `id`: the stream has ended, and no
    /// event reports it.
    pub fn finish(&mut self, id: SessionId)
        ensures
            final(self)@ == old(self)@.ended(id),
    {
        match find(&self.streams, id) {
            Some(at) => {
                let ghost before = models(self.streams@);
                self.streams[at].finish();
                proof {
                    assert(models(self.streams@) == before.update(
                        at as int,
                        self.streams@[at as int]@,
                    ));
                }
            },
            None => {},
        }
    }

    /// Opens a stream for the session unless the table holds one for its
    /// identity, open or ended.
    fn adopt(&mut self, session: Session)
        ensures
            final(self)@ == old(self)@.adopted(session@),
    {
        match find(&self.streams, session.id) {
            Some(_) => {},
            None => {
                let ghost before = models(self.streams@);
                let stream = StreamSession::open(session);
                self.streams.push(stream);
                proof {
                    assert(models(self.streams@) == before.push(stream@));
                }
            },
        }
    }

    /// Brings the table in line with the sessions that are wanted: drops the
    /// streams whose identity is not wanted any more, and opens each wanted
    /// session that has no stream. The streams that stay are not touched.
    pub fn reconcile(&mut self, wanted: Vec<Session>)
        ensures
            final(self)@ == old(self)@.reconciled(models(wanted@)),
    {
        let ghost all = models(self.streams@);
        let ghost sessions = models(wanted@);
        let mut at: usize = 0;
        let mut seen: Ghost<int> = Ghost(0);
        proof {
            assert(all.take(0) == Seq::<StreamSessionModel>::empty());
            assert(all.skip(0) == all);
            assert(Seq::<StreamSessionModel>::empty() + all == all);
        }
        while at < self.streams.len()
            invariant
                0 <= seen@ <= all.len(),
                at <= self.streams.len(),
                sessions == models(wanted@),
                at == still_wanted(all.take(seen@), sessions).len(),
                models(self.streams@) == still_wanted(all.take(seen@), sessions) + all.skip(seen@),
            decreases self.streams.len() - at,
        {
            let ghost kept = still_wanted(all.take(seen@), sessions);
            let ghost now = models(self.streams@);
            proof {
                assert(now[at as int] == all.skip(seen@)[0]);
                assert(all.take(seen@ + 1).drop_last() == all.take(seen@));
                assert(all.take(seen@ + 1).last() == all[seen@]);
            }
            if find(&wanted, self.streams[at].id()).is_some() {
                proof {
                    assert(kept.push(all[seen@]) + all.skip(seen@ + 1) == now);
                    seen@ = seen@ + 1;
                }
                at += 1;
            } else {
                self.streams.remove(at);
                proof {
                    assert(models(self.streams@) == now.remove(at as int));
                    assert(now.remove(at as int) == kept + all.skip(seen@ + 1));
                    seen@ = seen@ + 1;
                }
            }
        }
        proof {
            assert(all.skip(seen@).len() == 0);
            assert(all.take(seen@) == all);
            assert(models(self.streams@) == still_wanted(all, sessions));
        }
        let ghost kept = self@;
        for session in it: wanted
            invariant
                models(it.seq()) == sessions,
                self@ == kept.adopted_all(sessions.take(it.index() as int)),
        {
            proof {
                assert(sessions.take(it.index() + 1).drop_last() == sessions.take(
                    it.index() as int,
                ));
                assert(sessions.take(it.index() + 1).last() == session@);
            }
            self.adopt(session);
        }
        proof {
            assert(sessions.take(sessions.len() as int) == sessions);
        }
    }
}

} // verus!
