use vstd::prelude::*;
use crate::types::{ActionError, ErrorKind, GameState, GameView};

verus! {

/// What a conditional write of `record`, as read and changed by one action,
/// does to the stored record `stored`: it is accepted only while the stored
/// version is still the one the action read, and it stores the record with
/// its version one higher.
pub open spec fn save_outcome(stored: Option<GameView>, record: GameView) -> Result<GameView, ErrorKind> {
    match stored {
        None => Err(ErrorKind::NotFound),
        Some(cur) => {
            if cur.version != record.version {
                Err(ErrorKind::Conflict)
            } else if record.version == u32::MAX {
                Err(ErrorKind::StoreError)
            } else {
                Ok(GameView { version: (record.version + 1) as u32, ..record })
            }
        },
    }
}

/// The stored record after a save: the written one, or the old one where the
/// write was refused.
pub open spec fn stored_after(stored: Option<GameView>, record: GameView) -> Option<GameView> {
    match save_outcome(stored, record) {
        Ok(v) => Some(v),
        Err(_) => stored,
    }
}

/// Creating a record is accepted only where none is stored under its code.
pub open spec fn create_outcome(stored: Option<GameView>, record: GameView) -> Result<GameView, ErrorKind> {
    match stored {
        Some(_) => Err(ErrorKind::Conflict),
        None => Ok(record),
    }
}

/// The record to write for `record`, with its version one higher, and the
/// stored version the write must be conditioned on: `record`'s own.
pub fn prepare_save(record: GameState) -> (r: Result<(GameState, u32), ActionError>)
    ensures
        match r {
            Ok((w, expected)) => record.version < u32::MAX && expected == record.version
                && w@ == (GameView { version: (record.version + 1) as u32, ..record@ }),
            Err(e) => record.version == u32::MAX && e.kind == ErrorKind::StoreError,
        },
{
    let mut record = record;
    if record.version == u32::MAX {
        return Err(ActionError::new(ErrorKind::StoreError, "Error saving state, please try again"));
    }
    let expected = record.version;
    record.version = record.version + 1;
    Ok((record, expected))
}

/// The slot of one lobby in the record store, and the conditional writes it
/// accepts.
pub struct RecordSlot {
    current: Option<GameState>,
}

pub open spec fn option_view(o: Option<GameState>) -> Option<GameView> {
    match o {
        Some(s) => Some(s@),
        None => None,
    }
}

impl View for RecordSlot {
    type V = Option<GameView>;

    closed spec fn view(&self) -> Option<GameView> {
        option_view(self.current)
    }
}

impl RecordSlot {
    pub fn new() -> (r: RecordSlot)
        ensures
            r@ is None,
    {
        RecordSlot { current: None }
    }

    /// Stores `record` where no record is stored yet.
    pub fn create(&mut self, record: GameState) -> (r: Result<(), ActionError>)
        ensures
            match create_outcome(old(self)@, record@) {
                Ok(v) => r is Ok && final(self)@ == Some(v),
                Err(k) => (r matches Err(e) && e.kind == k) && final(self)@ == old(self)@,
            },
    {
        if self.current.is_some() {
            return Err(ActionError::new(ErrorKind::Conflict, "Error creating game, please try again"));
        }
        self.current = Some(record);
        Ok(())
    }

    /// The stored record.
    pub fn load(&self) -> (r: Result<GameState, ActionError>)
        ensures
            match self@ {
                Some(v) => (r matches Ok(s) && s@ == v),
                None => (r matches Err(e) && e.kind == ErrorKind::NotFound),
            },
    {
        match &self.current {
            Some(s) => Ok(s.clone()),
            None => Err(ActionError::new(ErrorKind::NotFound, "Lobby not found")),
        }
    }

    /// Writes `record` if the stored version is still the one it was read
    /// at; a refused write leaves the stored record as it was.
    pub fn save(&mut self, record: GameState) -> (r: Result<(), ActionError>)
        ensures
            match save_outcome(old(self)@, record@) {
                Ok(v) => r is Ok,
                Err(k) => (r matches Err(e) && e.kind == k),
            },
            final(self)@ == stored_after(old(self)@, record@),
    {
        let stored_version = match &self.current {
            None => {
                return Err(ActionError::new(ErrorKind::NotFound, "Lobby not found"));
            },
            Some(s) => s.version,
        };
        if stored_version != record.version {
            return Err(ActionError::new(ErrorKind::Conflict, "Error saving state, please try again"));
        }
        let written = match prepare_save(record) {
            Err(e) => {
                return Err(e);
            },
            Ok((w, _)) => w,
        };
        self.current = Some(written);
        Ok(())
    }
}

/// Of two writes made from the same read of the current record, the first
/// to reach the store is accepted and the second is refused as a conflict,
/// leaving the record the first one wrote.
pub proof fn lemma_concurrent_saves(stored: GameView, a: GameView, b: GameView)
    requires
        a.version == stored.version,
        b.version == stored.version,
        stored.version < u32::MAX,
    ensures
        save_outcome(Some(stored), a) is Ok,
        save_outcome(stored_after(Some(stored), a), b) == Err::<GameView, ErrorKind>(ErrorKind::Conflict),
        stored_after(stored_after(Some(stored), a), b) == stored_after(Some(stored), a),
{
}

} // verus!
