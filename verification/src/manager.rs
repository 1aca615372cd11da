use vstd::prelude::*;

use crate::errors::RecorderError;
use crate::journal::DanmuEntry;
use crate::platform::PlatformType;
use crate::recorder::{
    info_matches, CaptureAction, CaptureEvent, Recorder, RecorderInfo, RecorderState, RecorderV,
    RoomInfo, UserInfo,
};

verus! {

/// Whether some registered recorder serves room `room`.
pub open spec fn has_room(ms: Seq<RecorderV>, room: nat) -> bool {
    exists|i: int| 0 <= i < ms.len() && ms[i].room_id == room
}

/// The registry of active recorders, at most one per room id.
///
/// The registry itself is plain data; callers that poll and mutate it
/// concurrently put it behind their own read-mostly lock. Every decision
/// the registry makes is a function of its entries alone, so operations
/// on distinct rooms commute.
pub struct RecorderManager {
    pub recorders: Vec<Recorder>,
}

impl View for RecorderManager {
    type V = Seq<RecorderV>;

    open spec fn view(&self) -> Seq<RecorderV> {
        self.recorders@.map_values(|r: Recorder| r@)
    }
}

impl RecorderManager {
    /// The registry invariant: every recorder is internally consistent
    /// and no two recorders share a room id.
    pub open spec fn inv(self) -> bool {
        &&& forall|i: int|
            #![trigger self.recorders@[i]]
            0 <= i < self.recorders@.len() ==> self.recorders@[i].inv()
        &&& forall|i: int, j: int|
            #![trigger self@[i].room_id, self@[j].room_id]
            0 <= i < j < self@.len() ==> self@[i].room_id != self@[j].room_id
    }

    /// An empty registry.
    pub fn new() -> (r: Self)
        ensures
            r.inv(),
            r@ == Seq::<RecorderV>::empty(),
    {
        let r = RecorderManager { recorders: Vec::new() };
        proof {
            assert(r@ =~= Seq::<RecorderV>::empty());
        }
        r
    }

    /// The index of the recorder serving `room_id`, if any.
    fn find_room(&self, room_id: u64) -> (r: Option<usize>)
        ensures
            match r {
                Some(i) => i < self@.len() && self@[i as int].room_id == room_id as nat,
                None => !has_room(self@, room_id as nat),
            },
    {
        let mut i: usize = 0;
        while i < self.recorders.len()
            invariant
                i <= self.recorders.len(),
                forall|j: int| 0 <= j < i ==> self@[j].room_id != room_id as nat,
            decreases self.recorders.len() - i,
        {
            proof {
                assert(self@[i as int] == self.recorders@[i as int]@);
            }
            if self.recorders[i].room_id == room_id {
                return Some(i);
            }
            i = i + 1;
        }
        None
    }

    /// Registers a recorder for a new room and starts it idle.
    ///
    /// Fails with `AlreadyExists` when the room is registered, with
    /// `PlatformRejected` when the platform adapter could not validate
    /// the room; either failure leaves the registry unchanged.
    pub fn add_recorder(
        &mut self,
        platform: PlatformType,
        room_id: u64,
        platform_accepted: bool,
        room_info: RoomInfo,
        user_info: UserInfo,
    ) -> (r: Result<(), RecorderError>)
        requires
            old(self).inv(),
        ensures
            final(self).inv(),
            has_room(old(self)@, room_id as nat) ==> {
                &&& r == Result::<(), RecorderError>::Err(RecorderError::AlreadyExists)
                &&& final(self)@ == old(self)@
            },
            !has_room(old(self)@, room_id as nat) && !platform_accepted ==> {
                &&& r == Result::<(), RecorderError>::Err(RecorderError::PlatformRejected)
                &&& final(self)@ == old(self)@
            },
            !has_room(old(self)@, room_id as nat) && platform_accepted ==> {
                &&& r == Result::<(), RecorderError>::Ok(())
                &&& final(self)@ == old(self)@.push(
                    RecorderV {
                        platform,
                        room_id: room_id as nat,
                        state: RecorderState::Idle,
                        sessions: Seq::empty(),
                        retry_count: 0,
                        live_status: false,
                        room_info: room_info@,
                        user_info: user_info@,
                    },
                )
            },
    {
        match self.find_room(room_id) {
            Some(_) => {
                proof {
                    assert(has_room(self@, room_id as nat));
                }
                Err(RecorderError::AlreadyExists)
            },
            None => {
                if !platform_accepted {
                    return Err(RecorderError::PlatformRejected);
                }
                let ghost oldv = self@;
                let rec = Recorder::new(platform, room_id, room_info, user_info);
                let ghost recv = rec@;
                self.recorders.push(rec);
                proof {
                    assert(self@ =~= oldv.push(recv));
                    assert(forall|i: int| 0 <= i < oldv.len() ==> self@[i] == oldv[i]);
                    assert(forall|i: int|
                        0 <= i < old(self).recorders@.len()
                            ==> self.recorders@[i] == old(self).recorders@[i]);
                }
                Ok(())
            },
        }
    }

    /// Deregisters the room's recorder, stopping it gracefully at
    /// `now_ms`, and hands it back for archival; `NotFound` exactly when
    /// the room is not registered.
    pub fn remove_recorder(&mut self, room_id: u64, now_ms: u64) -> (r: Result<
        Recorder,
        RecorderError,
    >)
        requires
            old(self).inv(),
        ensures
            final(self).inv(),
            (r matches Err(e) && e == RecorderError::NotFound) <==> !has_room(
                old(self)@,
                room_id as nat,
            ),
            !has_room(old(self)@, room_id as nat) ==> final(self)@ == old(self)@,
            forall|i: int|
                0 <= i < old(self)@.len() && old(self)@[i].room_id == room_id as nat ==> {
                    &&& final(self)@ == old(self)@.remove(i)
                    &&& (r matches Ok(rec) && rec@ == old(self)@[i].stop_model(now_ms as nat))
                },
    {
        match self.find_room(room_id) {
            Some(i) => {
                let ghost oldv = self@;
                proof {
                    assert(self.recorders@[i as int].inv());
                    assert forall|j: int|
                        0 <= j < oldv.len() && oldv[j].room_id == room_id as nat implies j
                        == i as int by {
                        if j != i as int {
                            assert(oldv[j].room_id != oldv[i as int].room_id);
                        }
                    }
                }
                let mut rec = self.recorders.remove(i);
                rec.stop(now_ms);
                proof {
                    assert(self@ =~= oldv.remove(i as int));
                    assert(forall|j: int|
                        0 <= j < self.recorders@.len() ==> self.recorders@[j].inv());
                }
                Ok(rec)
            },
            None => Err(RecorderError::NotFound),
        }
    }

    /// A snapshot of all registered recorders, in registration order,
    /// without touching the network.
    pub fn get_recorder_list(&self) -> (r: Vec<RecorderInfo>)
        requires
            self.inv(),
        ensures
            r@.len() == self@.len(),
            forall|i: int| 0 <= i < self@.len() ==> info_matches(r@[i], self@[i]),
    {
        let mut out: Vec<RecorderInfo> = Vec::new();
        let mut i: usize = 0;
        while i < self.recorders.len()
            invariant
                self.inv(),
                i <= self.recorders.len(),
                out@.len() == i,
                forall|j: int| 0 <= j < i ==> info_matches(out@[j], self@[j]),
            decreases self.recorders.len() - i,
        {
            proof {
                assert(self.recorders@[i as int].inv());
                assert(self@[i as int] == self.recorders@[i as int]@);
            }
            out.push(self.recorders[i].info());
            i = i + 1;
        }
        out
    }

    /// The cached snapshot of one room's recorder; `None` exactly when
    /// the room is not registered.
    pub fn get_recorder_info(&self, room_id: u64) -> (r: Option<RecorderInfo>)
        requires
            self.inv(),
        ensures
            (r is None) <==> !has_room(self@, room_id as nat),
            forall|i: int|
                0 <= i < self@.len() && self@[i].room_id == room_id as nat ==> (r matches Some(info)
                    && info_matches(info, self@[i])),
    {
        match self.find_room(room_id) {
            Some(i) => {
                proof {
                    assert(self.recorders@[i as int].inv());
                    assert(self@[i as int] == self.recorders@[i as int]@);
                    assert forall|j: int|
                        0 <= j < self@.len() && self@[j].room_id == room_id as nat implies j
                        == i as int by {
                        if j != i as int {
                            assert(self@[j].room_id != self@[i as int].room_id);
                        }
                    }
                }
                Some(self.recorders[i].info())
            },
            None => None,
        }
    }

    /// Forwards one capture event to the room's recorder; `NotFound`
    /// exactly when the room is not registered.
    pub fn step_room(&mut self, room_id: u64, ev: CaptureEvent) -> (r: Result<
        CaptureAction,
        RecorderError,
    >)
        requires
            old(self).inv(),
        ensures
            final(self).inv(),
            (r matches Err(e) && e == RecorderError::NotFound) <==> !has_room(
                old(self)@,
                room_id as nat,
            ),
            !has_room(old(self)@, room_id as nat) ==> final(self)@ == old(self)@,
            forall|i: int|
                0 <= i < old(self)@.len() && old(self)@[i].room_id == room_id as nat ==> {
                    &&& final(self)@ == old(self)@.update(i, old(self)@[i].step(ev@).0)
                    &&& (r matches Ok(a) && a == old(self)@[i].step(ev@).1)
                },
    {
        match self.find_room(room_id) {
            Some(i) => {
                let ghost oldv = self@;
                proof {
                    assert(self.recorders@[i as int].inv());
                    assert forall|j: int|
                        0 <= j < oldv.len() && oldv[j].room_id == room_id as nat implies j
                        == i as int by {
                        if j != i as int {
                            assert(oldv[j].room_id != oldv[i as int].room_id);
                        }
                    }
                }
                let mut rec = self.recorders.remove(i);
                let ghost ev_v = ev@;
                let a = rec.step(ev);
                let ghost recv = rec@;
                self.recorders.insert(i, rec);
                proof {
                    assert(recv.room_id == oldv[i as int].room_id);
                    assert(self@ =~= oldv.update(i as int, recv));
                    assert(forall|j: int|
                        0 <= j < self.recorders@.len() ==> self.recorders@[j].inv());
                }
                Ok(a)
            },
            None => Err(RecorderError::NotFound),
        }
    }

    /// Summaries of one room's sessions, oldest first; `NotFound`
    /// exactly when the room is not registered.
    pub fn get_archives(&self, room_id: u64) -> (r: Result<
        Vec<crate::recorder::ArchiveInfo>,
        RecorderError,
    >)
        requires
            self.inv(),
        ensures
            (r is Err) <==> !has_room(self@, room_id as nat),
            r is Err ==> r == Result::<Vec<crate::recorder::ArchiveInfo>, RecorderError>::Err(
                RecorderError::NotFound,
            ),
            forall|i: int|
                0 <= i < self@.len() && self@[i].room_id == room_id as nat ==> (r matches Ok(v)
                    && v@.len() == self@[i].sessions.len() && (forall|j: int|
                    0 <= j < self@[i].sessions.len() ==> crate::recorder::archive_matches(
                        v@[j],
                        self@[i].sessions[j],
                    ))),
    {
        match self.find_room(room_id) {
            Some(i) => {
                proof {
                    assert(self.recorders@[i as int].inv());
                    assert(self@[i as int] == self.recorders@[i as int]@);
                    assert forall|j: int|
                        0 <= j < self@.len() && self@[j].room_id == room_id as nat implies j
                        == i as int by {
                        if j != i as int {
                            assert(self@[j].room_id != self@[i as int].room_id);
                        }
                    }
                }
                Ok(self.recorders[i].archives())
            },
            None => Err(RecorderError::NotFound),
        }
    }

    /// The summary of one session of one room; `NotFound` exactly when
    /// the room is not registered.
    pub fn get_archive(&self, room_id: u64, live_id: u64) -> (r: Result<
        crate::recorder::ArchiveInfo,
        RecorderError,
    >)
        requires
            self.inv(),
        ensures
            (r matches Err(e) && e == RecorderError::NotFound) <==> !has_room(
                self@,
                room_id as nat,
            ),
            forall|i: int|
                0 <= i < self@.len() && self@[i].room_id == room_id as nat ==> {
                    let ss = self@[i].sessions;
                    &&& ((r matches Err(e) && e == RecorderError::SessionNotFound) <==> (
                    forall|j: int| 0 <= j < ss.len() ==> ss[j].live_id != live_id as nat))
                    &&& (forall|j: int|
                        0 <= j < ss.len() && ss[j].live_id == live_id as nat ==> (r matches Ok(a)
                            && crate::recorder::archive_matches(a, ss[j])))
                },
    {
        match self.find_room(room_id) {
            Some(i) => {
                proof {
                    assert(self.recorders@[i as int].inv());
                    assert(self@[i as int] == self.recorders@[i as int]@);
                    assert forall|j: int|
                        0 <= j < self@.len() && self@[j].room_id == room_id as nat implies j
                        == i as int by {
                        if j != i as int {
                            assert(self@[j].room_id != self@[i as int].room_id);
                        }
                    }
                }
                self.recorders[i].archive(live_id)
            },
            None => Err(RecorderError::NotFound),
        }
    }

    /// Forwards a playlist query to the room's recorder; `NotFound`
    /// exactly when the room is not registered.
    pub fn get_m3u8(&self, room_id: u64, live_id: u64) -> (r: Result<String, RecorderError>)
        requires
            self.inv(),
        ensures
            (r is Err) <==> !has_room(self@, room_id as nat),
            r is Err ==> r == Result::<String, RecorderError>::Err(RecorderError::NotFound),
            forall|i: int|
                0 <= i < self@.len() && self@[i].room_id == room_id as nat ==> (r matches Ok(text)
                    && (forall|j: int|
                    0 <= j < self@[i].sessions.len() && self@[i].sessions[j].live_id
                        == live_id as nat ==> text@ == crate::journal::spec_playlist(
                        self@[i].sessions[j],
                    ))),
    {
        match self.find_room(room_id) {
            Some(i) => {
                proof {
                    assert(self.recorders@[i as int].inv());
                    assert(self@[i as int] == self.recorders@[i as int]@);
                    assert forall|j: int|
                        0 <= j < self@.len() && self@[j].room_id == room_id as nat implies j
                        == i as int by {
                        if j != i as int {
                            assert(self@[j].room_id != self@[i as int].room_id);
                        }
                    }
                }
                Ok(self.recorders[i].m3u8_content(live_id))
            },
            None => Err(RecorderError::NotFound),
        }
    }

    /// Forwards a clip request to the room's recorder; `NotFound`
    /// exactly when the room is not registered.
    pub fn clip_range(
        &self,
        room_id: u64,
        live_id: u64,
        start_ms: u64,
        end_ms: u64,
        output_path: &str,
        output_exists: bool,
    ) -> (r: Result<crate::clip::ClipPlan, RecorderError>)
        requires
            self.inv(),
        ensures
            (r matches Err(e) && e == RecorderError::NotFound) <==> !has_room(
                self@,
                room_id as nat,
            ),
            forall|i: int|
                0 <= i < self@.len() && self@[i].room_id == room_id as nat ==> {
                    let ss = self@[i].sessions;
                    &&& ((r matches Err(e) && e == RecorderError::SessionNotFound) <==> (
                    forall|j: int| 0 <= j < ss.len() ==> ss[j].live_id != live_id as nat))
                    &&& (forall|j: int|
                        0 <= j < ss.len() && ss[j].live_id == live_id as nat
                            ==> crate::clip::plan_matches(
                            r,
                            ss[j],
                            start_ms as nat,
                            end_ms as nat,
                            output_exists,
                            output_path@,
                        ))
                },
    {
        match self.find_room(room_id) {
            Some(i) => {
                proof {
                    assert(self.recorders@[i as int].inv());
                    assert(self@[i as int] == self.recorders@[i as int]@);
                    assert forall|j: int|
                        0 <= j < self@.len() && self@[j].room_id == room_id as nat implies j
                        == i as int by {
                        if j != i as int {
                            assert(self@[j].room_id != self@[i as int].room_id);
                        }
                    }
                }
                self.recorders[i].clip_range(live_id, start_ms, end_ms, output_path, output_exists)
            },
            None => Err(RecorderError::NotFound),
        }
    }

    /// Forwards a chat query to the room's recorder.
    pub fn get_danmu(&self, room_id: u64, live_id: u64) -> (r: Result<
        Vec<DanmuEntry>,
        RecorderError,
    >)
        requires
            self.inv(),
        ensures
            (r matches Err(e) && e == RecorderError::NotFound) <==> !has_room(
                self@,
                room_id as nat,
            ),
            forall|i: int|
                0 <= i < self@.len() && self@[i].room_id == room_id as nat ==> {
                    let ss = self@[i].sessions;
                    &&& ((r matches Err(e) && e == RecorderError::SessionNotFound) <==> (
                    forall|j: int| 0 <= j < ss.len() ==> ss[j].live_id != live_id as nat))
                    &&& (forall|j: int|
                        0 <= j < ss.len() && ss[j].live_id == live_id as nat ==> (r matches Ok(v)
                            && v@.map_values(|d: DanmuEntry| d@) == ss[j].danmu))
                },
    {
        match self.find_room(room_id) {
            Some(i) => {
                proof {
                    assert(self.recorders@[i as int].inv());
                    assert(self@[i as int] == self.recorders@[i as int]@);
                    assert forall|j: int|
                        0 <= j < self@.len() && self@[j].room_id == room_id as nat implies j
                        == i as int by {
                        if j != i as int {
                            assert(self@[j].room_id != self@[i as int].room_id);
                        }
                    }
                }
                self.recorders[i].comments(live_id)
            },
            None => Err(RecorderError::NotFound),
        }
    }
}

/// Operations on distinct rooms commute: forwarding events to two
/// different recorders touches disjoint registry entries, so neither
/// outcome depends on the order. Interleaving them concurrently is
/// therefore safe for the registry's state; only the lock around it
/// serializes access.
pub proof fn lemma_room_operations_commute(
    ms: Seq<RecorderV>,
    i: int,
    j: int,
    vi: RecorderV,
    vj: RecorderV,
)
    requires
        0 <= i < ms.len(),
        0 <= j < ms.len(),
        i != j,
    ensures
        ms.update(i, vi).update(j, vj) == ms.update(j, vj).update(i, vi),
{
    assert(ms.update(i, vi).update(j, vj) =~= ms.update(j, vj).update(i, vi));
}

/// Registrations of distinct rooms are independent: registering room
/// `r1` neither blocks nor unblocks a later registration of a different
/// room `r2`, while a second registration of `r1` itself is refused as
/// `AlreadyExists` by `add_recorder`'s contract.
pub proof fn lemma_distinct_rooms_independent(ms: Seq<RecorderV>, v1: RecorderV, room2: nat)
    requires
        v1.room_id != room2,
    ensures
        has_room(ms.push(v1), room2) == has_room(ms, room2),
        has_room(ms.push(v1), v1.room_id),
{
    assert(ms.push(v1)[ms.len() as int] == v1);
    if has_room(ms, room2) {
        let i = choose|i: int| 0 <= i < ms.len() && ms[i].room_id == room2;
        assert(ms.push(v1)[i] == ms[i]);
    }
    if has_room(ms.push(v1), room2) {
        let i = choose|i: int| 0 <= i < ms.push(v1).len() && ms.push(v1)[i].room_id == room2;
        assert(i < ms.len());
        assert(ms[i] == ms.push(v1)[i]);
    }
}

} // verus!
