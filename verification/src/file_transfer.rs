//! The file-transfer engine's state: one record per transfer and the
//! full life of each — offered, accepted, streamed in chunks, and
//! finished in exactly one of the four terminal states.
//!
//! Sockets and files live with the caller; this type owns every
//! decision: which transitions are legal, how progress moves the
//! byte counter, and when a transfer completes or fails. Progress
//! never exceeds the file size, and a completed transfer moved every
//! byte.

use vstd::prelude::*;
use crate::codec::{decode_transfer, encode_transfer, json_transfer};
use crate::errors::AppError;
use crate::models::{FileTransfer, FileTransferV, TransferStatus, User, valid_ts, opt_str_view};
use crate::strutil::str_eq;
use vstd::pervasive::VecAdditionalExecFns;
use vstd::string::StringExecFns;

verus! {

/// The chunk size both streaming sides use: 64 KiB.
pub const CHUNK_SIZE: usize = 65536;

/// The port the file-transfer service listens on.
pub const FILE_TRANSFER_PORT: u16 = 8766;

/// Whether some record carries this transfer id.
pub open spec fn transfers_have_id(ts: Seq<FileTransfer>, id: Seq<char>) -> bool {
    exists|i: int| 0 <= i < ts.len() && ts[i]@.id == id
}

/// The index of the record with this transfer id (unique under the
/// manager's invariant).
pub open spec fn transfer_idx(ts: Seq<FileTransfer>, id: Seq<char>) -> int {
    choose|i: int| 0 <= i < ts.len() && ts[i]@.id == id
}

/// The record stored under this transfer id, as a value.
pub open spec fn transfer_at(ts: Seq<FileTransfer>, id: Seq<char>) -> FileTransferV {
    ts[transfer_idx(ts, id)]@
}

/// The transfer manager: the local user and the record table.
pub struct FileTransferManager {
    /// The local user; which side of a transfer we are is decided
    /// against its id.
    pub local_user: User,
    /// One record per transfer; ids unique, every record well-formed.
    pub transfers: Vec<FileTransfer>,
}

impl FileTransferManager {
    /// Ids are unique and every record is well-formed: progress never
    /// exceeds the size, completion means every byte moved.
    pub open spec fn inv(&self) -> bool {
        &&& forall|i: int, j: int|
            0 <= i < j < self.transfers@.len() ==> self.transfers@[i]@.id
                != self.transfers@[j]@.id
        &&& forall|i: int| 0 <= i < self.transfers@.len() ==> (#[trigger] self.transfers@[i]).wf()
    }

    /// An empty table for this user.
    pub fn new(local_user: User) -> (r: FileTransferManager)
        ensures
            r.local_user@ == local_user@,
            r.transfers@.len() == 0,
            r.inv(),
    {
        FileTransferManager { local_user, transfers: Vec::new() }
    }

    /// The index of the record with this id, if the table holds one.
    fn find_transfer(&self, transfer_id: &str) -> (r: Option<usize>)
        requires
            self.inv(),
        ensures
            r matches Some(i) ==> i < self.transfers@.len() && self.transfers@[i as int]@.id
                == transfer_id@ && transfers_have_id(self.transfers@, transfer_id@)
                && transfer_idx(self.transfers@, transfer_id@) == i,
            r is None ==> !transfers_have_id(self.transfers@, transfer_id@),
    {
        let mut i: usize = 0;
        while i < self.transfers.len()
            invariant
                self.inv(),
                i <= self.transfers@.len(),
                forall|j: int| 0 <= j < i ==> (#[trigger] self.transfers@[j])@.id != transfer_id@,
            decreases self.transfers@.len() - i,
        {
            if str_eq(self.transfers[i].id.as_str(), transfer_id) {
                proof {
                    assert(transfers_have_id(self.transfers@, transfer_id@));
                    let k = transfer_idx(self.transfers@, transfer_id@);
                    if k != i {
                        assert(self.transfers@[k]@.id == transfer_id@);
                    }
                }
                return Some(i);
            }
            i += 1;
        }
        None
    }

    /// Builds and stores the outgoing offer: a fresh Pending record
    /// with zero bytes moved, our id and address as sender, the peer
    /// as recipient. Returns the record; the caller writes its JSON
    /// to the peer's transfer port. Replaces any record under the
    /// same id.
    pub fn create_outgoing_transfer(
        &mut self,
        id: String,
        peer_id: &str,
        peer_ip: &str,
        file_name: String,
        file_size: u64,
        source_path: String,
        now: i64,
    ) -> (t: FileTransfer)
        requires
            old(self).inv(),
            valid_ts(now),
        ensures
            final(self).inv(),
            final(self).local_user@ == old(self).local_user@,
            t@.id == id@,
            t@.sender_id == old(self).local_user@.id,
            t@.recipient_id == peer_id@,
            t@.sender_ip == Option::Some(old(self).local_user@.ip),
            t@.recipient_ip == Option::Some(peer_ip@),
            t@.file_name == file_name@,
            t@.file_size == file_size,
            t@.source_path == Option::Some(source_path@),
            t@.destination_path == Option::<Seq<char>>::None,
            t@.status == TransferStatus::Pending,
            t@.bytes_transferred == 0,
            t@.timestamp == now,
            t@.error == Option::<Seq<char>>::None,
            final(self).transfers@ == old(self).transfers@.filter(
                |x: FileTransfer| x@.id != id@,
            ).push(final(self).transfers@.last()),
            final(self).transfers@.len() > 0 && final(self).transfers@.last()@ == t@,
    {
        let t = FileTransfer {
            id,
            sender_id: self.local_user.id.clone(),
            recipient_id: String::from_str(peer_id),
            sender_ip: Some(self.local_user.ip.clone()),
            recipient_ip: Some(String::from_str(peer_ip)),
            file_name,
            file_size,
            source_path: Some(source_path),
            destination_path: None,
            status: TransferStatus::Pending,
            bytes_transferred: 0,
            timestamp: now,
            error: None,
        };
        let copy = t.clone();
        self.store_transfer(copy);
        t
    }

    /// Writes a record over whatever entry carried its id.
    fn store_transfer(&mut self, t: FileTransfer)
        requires
            old(self).inv(),
            t.wf(),
        ensures
            final(self).inv(),
            final(self).local_user@ == old(self).local_user@,
            final(self).transfers@ == old(self).transfers@.filter(
                |x: FileTransfer| x@.id != t@.id,
            ).push(t),
    {
        let ghost tid = t@.id;
        let ghost pf = (|x: FileTransfer| x@.id != tid);
        let n = self.transfers.len();
        let mut out: Vec<FileTransfer> = Vec::new();
        let mut i: usize = 0;
        while i < n
            invariant
                i <= n,
                n == self.transfers@.len(),
                self.transfers@ == old(self).transfers@,
                tid == t@.id,
                pf == (|x: FileTransfer| x@.id != tid),
                out@ == self.transfers@.take(i as int).filter(pf),
            decreases n - i,
        {
            proof {
                lemma_transfer_filter_take_step(self.transfers@, pf, i as int);
            }
            if !str_eq(self.transfers[i].id.as_str(), t.id.as_str()) {
                let c = self.transfers[i].clone();
                out.push(c);
            }
            proof {
                assert(out@ =~= self.transfers@.take(i + 1 as int).filter(pf));
            }
            i += 1;
        }
        proof {
            assert(self.transfers@.take(n as int) =~= self.transfers@);
        }
        let ghost mid = old(self).transfers@.filter(pf);
        out.push(t);
        self.transfers = out;
        proof {
            let cs = self.transfers@;
            assert(cs == mid.push(t));
            assert forall|a: int, b: int|
                0 <= a < b < cs.len() implies cs[a]@.id != cs[b]@.id by {
                if b == cs.len() - 1 {
                    old(self).transfers@.lemma_filter_pred(pf, a);
                } else {
                    lemma_transfer_filter_unique(old(self).transfers@, pf, a, b);
                }
            }
            assert forall|a: int| 0 <= a < cs.len() implies (#[trigger] cs[a]).wf() by {
                if a < cs.len() - 1 {
                    old(self).transfers@.lemma_filter_contains_rev(pf, cs[a]);
                    let j = choose|j: int|
                        0 <= j < old(self).transfers@.len() && old(self).transfers@[j] == cs[a];
                }
            }
            assert((|x: FileTransfer| x@.id != tid) =~= (|x: FileTransfer| x@.id != t@.id));
        }
    }

    /// Takes one JSON transfer record read from the transfer port: an
    /// offer reaching its recipient, or a status update reaching
    /// either party, is written over whatever record carried its id;
    /// a record naming neither side is ignored. Returns the stored
    /// record for the UI event.
    pub fn handle_transfer_request(&mut self, json: &str) -> (r: Option<FileTransfer>)
        requires
            old(self).inv(),
        ensures
            final(self).inv(),
            final(self).local_user@ == old(self).local_user@,
            r is None ==> final(self).transfers@ == old(self).transfers@,
            r matches Some(t) ==> t.wf() && json@ == json_transfer(t@) && (t@.recipient_id == old(
                self,
            ).local_user@.id || t@.sender_id == old(self).local_user@.id) && final(self).transfers@ == old(self).transfers@.filter(
                |x: FileTransfer| x@.id != t@.id,
            ).push(final(self).transfers@.last()) && final(self).transfers@.last()@ == t@,
            forall|tv: FileTransferV|
                tv.wf() && json@ == #[trigger] json_transfer(tv) && (tv.recipient_id == old(
                    self,
                ).local_user@.id || tv.sender_id == old(self).local_user@.id) ==> r is Some,
    {
        match decode_transfer(json) {
            Option::Some(t) => {
                if str_eq(t.recipient_id.as_str(), self.local_user.id.as_str()) || str_eq(
                    t.sender_id.as_str(),
                    self.local_user.id.as_str(),
                ) {
                    let copy = t.clone();
                    self.store_transfer(copy);
                    proof {
                        assert(final(self).transfers@.last()@ == t@);
                    }
                    Some(t)
                } else {
                    None
                }
            },
            Option::None => None,
        }
    }

    /// Accepts a Pending transfer: the record moves to InProgress and
    /// takes the destination path. Unknown ids fail with the id; a
    /// record in any other state is left alone with an invalid-
    /// operation error. Returns the updated record for the streaming
    /// task.
    pub fn accept_transfer(&mut self, transfer_id: &str, save_path: &str) -> (r: Result<
        FileTransfer,
        AppError,
    >)
        requires
            old(self).inv(),
        ensures
            final(self).inv(),
            final(self).local_user@ == old(self).local_user@,
            !transfers_have_id(old(self).transfers@, transfer_id@) ==> final(self).transfers@
                == old(self).transfers@ && (r matches Err(e) && e matches
                AppError::TransferNotFound(m) && m@ == transfer_id@),
            transfers_have_id(old(self).transfers@, transfer_id@) && transfer_at(
                old(self).transfers@,
                transfer_id@,
            ).status != TransferStatus::Pending ==> final(self).transfers@ == old(
                self,
            ).transfers@ && (r matches Err(e) && e matches AppError::InvalidOperation(_)),
            transfers_have_id(old(self).transfers@, transfer_id@) && transfer_at(
                old(self).transfers@,
                transfer_id@,
            ).status == TransferStatus::Pending ==> (r matches Ok(t) && t@ == (FileTransferV {
                status: TransferStatus::InProgress,
                destination_path: Option::Some(save_path@),
                ..transfer_at(old(self).transfers@, transfer_id@)
            }) && transfers_have_id(final(self).transfers@, transfer_id@) && transfer_at(
                final(self).transfers@,
                transfer_id@,
            ) == t@ && (forall|id2: Seq<char>|
                id2 != transfer_id@ ==> stored_same(
                    old(self).transfers@,
                    final(self).transfers@,
                    id2,
                ))),
    {
        let found = self.find_transfer(transfer_id);
        match found {
            Option::None => Err(AppError::TransferNotFound(String::from_str(transfer_id))),
            Option::Some(i) => {
                let cur = &self.transfers[i];
                if !matches!(cur.status, TransferStatus::Pending) {
                    return Err(
                        AppError::InvalidOperation(
                            String::from_str("transfer is not pending acceptance"),
                        ),
                    );
                }
                let updated = FileTransfer {
                    status: TransferStatus::InProgress,
                    destination_path: Some(String::from_str(save_path)),
                    ..cur.clone()
                };
                let result = updated.clone();
                self.replace_at(i, updated);
                Ok(result)
            },
        }
    }

    /// Rejects a Pending transfer: the record moves to Rejected and
    /// never leaves it. Errors mirror [`Self::accept_transfer`]. The
    /// caller sends the updated record to the other side; no file
    /// data ever flows.
    pub fn reject_transfer(&mut self, transfer_id: &str) -> (r: Result<FileTransfer, AppError>)
        requires
            old(self).inv(),
        ensures
            final(self).inv(),
            final(self).local_user@ == old(self).local_user@,
            !transfers_have_id(old(self).transfers@, transfer_id@) ==> final(self).transfers@
                == old(self).transfers@ && (r matches Err(e) && e matches
                AppError::TransferNotFound(m) && m@ == transfer_id@),
            transfers_have_id(old(self).transfers@, transfer_id@) && transfer_at(
                old(self).transfers@,
                transfer_id@,
            ).status != TransferStatus::Pending ==> final(self).transfers@ == old(
                self,
            ).transfers@ && (r matches Err(e) && e matches AppError::InvalidOperation(_)),
            transfers_have_id(old(self).transfers@, transfer_id@) && transfer_at(
                old(self).transfers@,
                transfer_id@,
            ).status == TransferStatus::Pending ==> (r matches Ok(t) && t@ == (FileTransferV {
                status: TransferStatus::Rejected,
                ..transfer_at(old(self).transfers@, transfer_id@)
            }) && transfers_have_id(final(self).transfers@, transfer_id@) && transfer_at(
                final(self).transfers@,
                transfer_id@,
            ) == t@ && (forall|id2: Seq<char>|
                id2 != transfer_id@ ==> stored_same(
                    old(self).transfers@,
                    final(self).transfers@,
                    id2,
                ))),
    {
        let found = self.find_transfer(transfer_id);
        match found {
            Option::None => Err(AppError::TransferNotFound(String::from_str(transfer_id))),
            Option::Some(i) => {
                let cur = &self.transfers[i];
                if !matches!(cur.status, TransferStatus::Pending) {
                    return Err(
                        AppError::InvalidOperation(
                            String::from_str("transfer is not pending acceptance"),
                        ),
                    );
                }
                let updated = FileTransfer { status: TransferStatus::Rejected, ..cur.clone() };
                let result = updated.clone();
                self.replace_at(i, updated);
                Ok(result)
            },
        }
    }

    /// Cancels a transfer that is Pending or InProgress: the record
    /// moves to Cancelled and never leaves it. Errors mirror
    /// [`Self::accept_transfer`]. The caller notifies the other side.
    pub fn cancel_transfer(&mut self, transfer_id: &str) -> (r: Result<FileTransfer, AppError>)
        requires
            old(self).inv(),
        ensures
            final(self).inv(),
            final(self).local_user@ == old(self).local_user@,
            !transfers_have_id(old(self).transfers@, transfer_id@) ==> final(self).transfers@
                == old(self).transfers@ && (r matches Err(e) && e matches
                AppError::TransferNotFound(m) && m@ == transfer_id@),
            transfers_have_id(old(self).transfers@, transfer_id@) && transfer_at(
                old(self).transfers@,
                transfer_id@,
            ).status.is_terminal() ==> final(self).transfers@ == old(self).transfers@ && (r
                matches Err(e) && e matches AppError::InvalidOperation(_)),
            transfers_have_id(old(self).transfers@, transfer_id@) && !transfer_at(
                old(self).transfers@,
                transfer_id@,
            ).status.is_terminal() ==> (r matches Ok(t) && t@ == (FileTransferV {
                status: TransferStatus::Cancelled,
                ..transfer_at(old(self).transfers@, transfer_id@)
            }) && transfers_have_id(final(self).transfers@, transfer_id@) && transfer_at(
                final(self).transfers@,
                transfer_id@,
            ) == t@ && (forall|id2: Seq<char>|
                id2 != transfer_id@ ==> stored_same(
                    old(self).transfers@,
                    final(self).transfers@,
                    id2,
                ))),
    {
        let found = self.find_transfer(transfer_id);
        match found {
            Option::None => Err(AppError::TransferNotFound(String::from_str(transfer_id))),
            Option::Some(i) => {
                let cur = &self.transfers[i];
                let terminal = matches!(
                    cur.status,
                    TransferStatus::Completed
                        | TransferStatus::Rejected
                        | TransferStatus::Cancelled
                        | TransferStatus::Failed
                );
                if terminal {
                    return Err(
                        AppError::InvalidOperation(
                            String::from_str("transfer already finished"),
                        ),
                    );
                }
                let updated = FileTransfer { status: TransferStatus::Cancelled, ..cur.clone() };
                let result = updated.clone();
                self.replace_at(i, updated);
                Ok(result)
            },
        }
    }

    /// Notes one streamed chunk of `n` bytes on an InProgress
    /// transfer. Progress grows by `n`; reaching the file size
    /// completes the transfer in the same step. A chunk that would
    /// push progress past the size fails the transfer instead (the
    /// peer broke the protocol), so progress never exceeds the size.
    pub fn record_chunk(&mut self, transfer_id: &str, n: u64) -> (r: Result<
        TransferStatus,
        AppError,
    >)
        requires
            old(self).inv(),
        ensures
            final(self).inv(),
            final(self).local_user@ == old(self).local_user@,
            !transfers_have_id(old(self).transfers@, transfer_id@) ==> final(self).transfers@
                == old(self).transfers@ && (r matches Err(e) && e matches
                AppError::TransferNotFound(m) && m@ == transfer_id@),
            transfers_have_id(old(self).transfers@, transfer_id@) && transfer_at(
                old(self).transfers@,
                transfer_id@,
            ).status != TransferStatus::InProgress ==> final(self).transfers@ == old(
                self,
            ).transfers@ && (r matches Err(e) && e matches AppError::InvalidOperation(_)),
            ({
                let t0 = transfer_at(old(self).transfers@, transfer_id@);
                transfers_have_id(old(self).transfers@, transfer_id@) && t0.status
                    == TransferStatus::InProgress && t0.bytes_transferred + n <= t0.file_size
            }) ==> ({
                let t0 = transfer_at(old(self).transfers@, transfer_id@);
                let done = t0.bytes_transferred + n == t0.file_size;
                let st = if done {
                    TransferStatus::Completed
                } else {
                    TransferStatus::InProgress
                };
                &&& r matches Ok(s2) && s2 == st
                &&& transfers_have_id(final(self).transfers@, transfer_id@)
                &&& transfer_at(final(self).transfers@, transfer_id@) == (FileTransferV {
                    status: st,
                    bytes_transferred: (t0.bytes_transferred + n) as u64,
                    ..t0
                })
                &&& forall|id2: Seq<char>|
                    id2 != transfer_id@ ==> stored_same(
                        old(self).transfers@,
                        final(self).transfers@,
                        id2,
                    )
            }),
            ({
                let t0 = transfer_at(old(self).transfers@, transfer_id@);
                transfers_have_id(old(self).transfers@, transfer_id@) && t0.status
                    == TransferStatus::InProgress && t0.bytes_transferred + n > t0.file_size
            }) ==> ({
                &&& r matches Ok(s2) && s2 == TransferStatus::Failed
                &&& transfers_have_id(final(self).transfers@, transfer_id@)
                &&& transfer_at(final(self).transfers@, transfer_id@).status
                    == TransferStatus::Failed
                &&& transfer_at(final(self).transfers@, transfer_id@).bytes_transferred
                    == transfer_at(old(self).transfers@, transfer_id@).bytes_transferred
            }),
    {
        let found = self.find_transfer(transfer_id);
        match found {
            Option::None => Err(AppError::TransferNotFound(String::from_str(transfer_id))),
            Option::Some(i) => {
                let cur = &self.transfers[i];
                if !matches!(cur.status, TransferStatus::InProgress) {
                    return Err(
                        AppError::InvalidOperation(
                            String::from_str("transfer is not in progress"),
                        ),
                    );
                }
                if n > cur.file_size - cur.bytes_transferred {
                    let updated = FileTransfer {
                        status: TransferStatus::Failed,
                        error: Some(
                            String::from_str("received more data than the announced file size"),
                        ),
                        ..cur.clone()
                    };
                    self.replace_at(i, updated);
                    return Ok(TransferStatus::Failed);
                }
                let moved = cur.bytes_transferred + n;
                let st = if moved == cur.file_size {
                    TransferStatus::Completed
                } else {
                    TransferStatus::InProgress
                };
                let updated = FileTransfer {
                    status: st,
                    bytes_transferred: moved,
                    ..cur.clone()
                };
                self.replace_at(i, updated);
                Ok(st)
            },
        }
    }

    /// Closes the streaming side at end of stream: with every byte
    /// moved the transfer completes (a zero-byte file completes
    /// immediately); short of that it fails with an error text. Only
    /// an InProgress transfer can finish.
    pub fn finish_stream(&mut self, transfer_id: &str) -> (r: Result<TransferStatus, AppError>)
        requires
            old(self).inv(),
        ensures
            final(self).inv(),
            final(self).local_user@ == old(self).local_user@,
            !transfers_have_id(old(self).transfers@, transfer_id@) ==> final(self).transfers@
                == old(self).transfers@ && (r matches Err(e) && e matches
                AppError::TransferNotFound(m) && m@ == transfer_id@),
            transfers_have_id(old(self).transfers@, transfer_id@) && transfer_at(
                old(self).transfers@,
                transfer_id@,
            ).status == TransferStatus::Completed ==> final(self).transfers@ == old(
                self,
            ).transfers@ && (r matches Ok(s2) && s2 == TransferStatus::Completed),
            transfers_have_id(old(self).transfers@, transfer_id@) && transfer_at(
                old(self).transfers@,
                transfer_id@,
            ).status != TransferStatus::InProgress && transfer_at(
                old(self).transfers@,
                transfer_id@,
            ).status != TransferStatus::Completed ==> final(self).transfers@ == old(
                self,
            ).transfers@ && (r matches Err(e) && e matches AppError::InvalidOperation(_)),
            ({
                let t0 = transfer_at(old(self).transfers@, transfer_id@);
                transfers_have_id(old(self).transfers@, transfer_id@) && t0.status
                    == TransferStatus::InProgress && t0.bytes_transferred == t0.file_size
            }) ==> (r matches Ok(s2) && s2 == TransferStatus::Completed && transfer_at(
                final(self).transfers@,
                transfer_id@,
            ) == (FileTransferV {
                status: TransferStatus::Completed,
                ..transfer_at(old(self).transfers@, transfer_id@)
            }) && transfers_have_id(final(self).transfers@, transfer_id@)),
            ({
                let t0 = transfer_at(old(self).transfers@, transfer_id@);
                transfers_have_id(old(self).transfers@, transfer_id@) && t0.status
                    == TransferStatus::InProgress && t0.bytes_transferred != t0.file_size
            }) ==> (r matches Ok(s2) && s2 == TransferStatus::Failed && transfer_at(
                final(self).transfers@,
                transfer_id@,
            ).status == TransferStatus::Failed && transfers_have_id(
                final(self).transfers@,
                transfer_id@,
            )),
    {
        let found = self.find_transfer(transfer_id);
        match found {
            Option::None => Err(AppError::TransferNotFound(String::from_str(transfer_id))),
            Option::Some(i) => {
                let cur = &self.transfers[i];
                if matches!(cur.status, TransferStatus::Completed) {
                    return Ok(TransferStatus::Completed);
                }
                if !matches!(cur.status, TransferStatus::InProgress) {
                    return Err(
                        AppError::InvalidOperation(
                            String::from_str("transfer is not in progress"),
                        ),
                    );
                }
                if cur.bytes_transferred == cur.file_size {
                    let updated = FileTransfer {
                        status: TransferStatus::Completed,
                        ..cur.clone()
                    };
                    self.replace_at(i, updated);
                    Ok(TransferStatus::Completed)
                } else {
                    let updated = FileTransfer {
                        status: TransferStatus::Failed,
                        error: Some(
                            String::from_str("connection closed before the transfer finished"),
                        ),
                        ..cur.clone()
                    };
                    self.replace_at(i, updated);
                    Ok(TransferStatus::Failed)
                }
            },
        }
    }

    /// Marks a non-terminal transfer Failed with the given error text.
    /// A finished transfer is immutable and is left alone.
    pub fn mark_transfer_failed(&mut self, transfer_id: &str, error: String) -> (r: Result<
        (),
        AppError,
    >)
        requires
            old(self).inv(),
        ensures
            final(self).inv(),
            final(self).local_user@ == old(self).local_user@,
            !transfers_have_id(old(self).transfers@, transfer_id@) ==> final(self).transfers@
                == old(self).transfers@ && (r matches Err(e) && e matches
                AppError::TransferNotFound(m) && m@ == transfer_id@),
            transfers_have_id(old(self).transfers@, transfer_id@) && transfer_at(
                old(self).transfers@,
                transfer_id@,
            ).status.is_terminal() ==> final(self).transfers@ == old(self).transfers@ && (r
                matches Err(e) && e matches AppError::InvalidOperation(_)),
            transfers_have_id(old(self).transfers@, transfer_id@) && !transfer_at(
                old(self).transfers@,
                transfer_id@,
            ).status.is_terminal() ==> (r is Ok && transfer_at(
                final(self).transfers@,
                transfer_id@,
            ) == (FileTransferV {
                status: TransferStatus::Failed,
                error: Option::Some(error@),
                ..transfer_at(old(self).transfers@, transfer_id@)
            }) && transfers_have_id(final(self).transfers@, transfer_id@)),
    {
        let found = self.find_transfer(transfer_id);
        match found {
            Option::None => Err(AppError::TransferNotFound(String::from_str(transfer_id))),
            Option::Some(i) => {
                let cur = &self.transfers[i];
                let terminal = matches!(
                    cur.status,
                    TransferStatus::Completed
                        | TransferStatus::Rejected
                        | TransferStatus::Cancelled
                        | TransferStatus::Failed
                );
                if terminal {
                    return Err(
                        AppError::InvalidOperation(
                            String::from_str("transfer already finished"),
                        ),
                    );
                }
                let updated = FileTransfer {
                    status: TransferStatus::Failed,
                    error: Some(error),
                    ..cur.clone()
                };
                self.replace_at(i, updated);
                Ok(())
            },
        }
    }

    /// Replaces the record at `i` with one carrying the same id.
    fn replace_at(&mut self, i: usize, t: FileTransfer)
        requires
            old(self).inv(),
            i < old(self).transfers@.len(),
            t@.id == old(self).transfers@[i as int]@.id,
            t.wf(),
        ensures
            final(self).inv(),
            final(self).local_user@ == old(self).local_user@,
            final(self).transfers@ == old(self).transfers@.update(i as int, t),
            transfers_have_id(final(self).transfers@, t@.id),
            transfer_at(final(self).transfers@, t@.id) == t@,
            forall|id2: Seq<char>|
                id2 != t@.id ==> stored_same(old(self).transfers@, final(self).transfers@, id2),
    {
        VecAdditionalExecFns::set(&mut self.transfers, i, t);
        proof {
            let cs = self.transfers@;
            let obs = old(self).transfers@;
            assert(forall|j: int| 0 <= j < cs.len() && j != i ==> cs[j] == #[trigger] obs[j]);
            assert forall|a: int, b: int|
                0 <= a < b < cs.len() implies cs[a]@.id != cs[b]@.id by {
                assert(cs[a]@.id == obs[a]@.id && cs[b]@.id == obs[b]@.id);
            }
            assert forall|a: int| 0 <= a < cs.len() implies (#[trigger] cs[a]).wf() by {
                if a != i {
                    assert(cs[a] == obs[a]);
                }
            }
            lemma_transfer_idx_unique(cs, t@.id, i as int);
            assert forall|id2: Seq<char>|
                id2 != t@.id implies stored_same(obs, cs, id2) by {
                if transfers_have_id(obs, id2) {
                    let k = transfer_idx(obs, id2);
                    assert(obs[k]@.id == id2);
                    assert(k != i);
                    assert(cs[k]@.id == id2);
                    lemma_transfer_idx_unique(cs, id2, k);
                } else {
                    if transfers_have_id(cs, id2) {
                        let k = transfer_idx(cs, id2);
                        assert(cs[k]@.id == id2);
                        assert(k != i);
                        assert(obs[k]@.id == id2);
                    }
                }
            }
        }
    }

    /// The transfers this peer takes part in, either side, in table
    /// order.
    pub fn get_transfers_for_peer(&self, peer_id: &str) -> (r: Vec<FileTransfer>)
        ensures
            r@ == self.transfers@.filter(
                |t: FileTransfer| t@.sender_id == peer_id@ || t@.recipient_id == peer_id@,
            ),
    {
        let ghost pf = (|t: FileTransfer| t@.sender_id == peer_id@ || t@.recipient_id
            == peer_id@);
        let n = self.transfers.len();
        let mut out: Vec<FileTransfer> = Vec::new();
        let mut i: usize = 0;
        while i < n
            invariant
                i <= n,
                n == self.transfers@.len(),
                pf == (|t: FileTransfer| t@.sender_id == peer_id@ || t@.recipient_id
                    == peer_id@),
                out@ == self.transfers@.take(i as int).filter(pf),
            decreases n - i,
        {
            proof {
                lemma_transfer_filter_take_step(self.transfers@, pf, i as int);
            }
            if str_eq(self.transfers[i].sender_id.as_str(), peer_id) || str_eq(
                self.transfers[i].recipient_id.as_str(),
                peer_id,
            ) {
                let c = self.transfers[i].clone();
                out.push(c);
            }
            proof {
                assert(out@ =~= self.transfers@.take(i + 1 as int).filter(pf));
            }
            i += 1;
        }
        proof {
            assert(self.transfers@.take(n as int) =~= self.transfers@);
        }
        out
    }

    /// Copies of every record, in table order.
    pub fn get_all_transfers(&self) -> (r: Vec<FileTransfer>)
        ensures
            r@ == self.transfers@,
    {
        let mut out: Vec<FileTransfer> = Vec::new();
        let mut i: usize = 0;
        while i < self.transfers.len()
            invariant
                i <= self.transfers@.len(),
                out@ == self.transfers@.take(i as int),
            decreases self.transfers@.len() - i,
        {
            let c = self.transfers[i].clone();
            out.push(c);
            proof {
                assert(self.transfers@.take(i + 1 as int) =~= self.transfers@.take(
                    i as int,
                ).push(self.transfers@[i as int]));
            }
            i += 1;
        }
        proof {
            assert(self.transfers@.take(self.transfers@.len() as int) =~= self.transfers@);
        }
        out
    }

    /// The address of the other party of a transfer, for a status
    /// notification: the recipient's address when we sent, else the
    /// sender's. A missing address is a transfer-precondition
    /// error.
    pub fn notify_target_ip(&self, t: &FileTransfer) -> (r: Result<String, AppError>)
        ensures
            t@.sender_id == self.local_user@.id ==> (match t@.recipient_ip {
                Option::Some(ip) => r matches Ok(s) && s@ == ip,
                Option::None => r matches Err(e) && e matches AppError::FileTransferError(_),
            }),
            t@.sender_id != self.local_user@.id ==> (match t@.sender_ip {
                Option::Some(ip) => r matches Ok(s) && s@ == ip,
                Option::None => r matches Err(e) && e matches AppError::FileTransferError(_),
            }),
    {
        let side = if str_eq(t.sender_id.as_str(), self.local_user.id.as_str()) {
            &t.recipient_ip
        } else {
            &t.sender_ip
        };
        match side {
            Option::Some(ip) => Ok(ip.clone()),
            Option::None => Err(
                AppError::FileTransferError(
                    String::from_str("Recipient IP address not available"),
                ),
            ),
        }
    }

    /// The canonical JSON of a stored record, as written to the
    /// transfer port for requests and status updates.
    pub fn encode_stored_transfer(&self, t: &FileTransfer) -> (r: String)
        requires
            t.wf(),
        ensures
            r@ == json_transfer(t@),
    {
        encode_transfer(t)
    }
}

/// Every stored record satisfies the progress bound, and a completed
/// record moved every byte: the manager's invariant spells the
/// transfer bounds out for each entry.
pub proof fn lemma_transfer_bounds(fm: FileTransferManager)
    requires
        fm.inv(),
    ensures
        forall|i: int|
            0 <= i < fm.transfers@.len() ==> (#[trigger] fm.transfers@[i])@.bytes_transferred
                <= fm.transfers@[i]@.file_size,
        forall|i: int|
            0 <= i < fm.transfers@.len() && (#[trigger] fm.transfers@[i])@.status
                == TransferStatus::Completed ==> fm.transfers@[i]@.bytes_transferred
                == fm.transfers@[i]@.file_size,
{
    assert forall|i: int|
        0 <= i < fm.transfers@.len() implies (#[trigger] fm.transfers@[i])@.bytes_transferred
        <= fm.transfers@[i]@.file_size && (fm.transfers@[i]@.status == TransferStatus::Completed
        ==> fm.transfers@[i]@.bytes_transferred == fm.transfers@[i]@.file_size) by {
        assert(fm.transfers@[i].wf());
    }
}

/// The record stored under `id` (or its absence) is the same in both
/// tables.
pub open spec fn stored_same(a: Seq<FileTransfer>, b: Seq<FileTransfer>, id: Seq<char>) -> bool {
    &&& transfers_have_id(a, id) == transfers_have_id(b, id)
    &&& transfers_have_id(a, id) ==> transfer_at(a, id) == transfer_at(b, id)
}

/// Under unique ids, the chosen transfer index is the matching one.
proof fn lemma_transfer_idx_unique(ts: Seq<FileTransfer>, id: Seq<char>, i: int)
    requires
        forall|a: int, b: int| 0 <= a < b < ts.len() ==> ts[a]@.id != ts[b]@.id,
        0 <= i < ts.len(),
        ts[i]@.id == id,
    ensures
        transfers_have_id(ts, id),
        transfer_idx(ts, id) == i,
{
    assert(transfers_have_id(ts, id));
    let k = transfer_idx(ts, id);
    if k != i {
        assert(ts[k]@.id == id);
    }
}

/// One scan step of a retain loop over the table.
proof fn lemma_transfer_filter_take_step(
    ts: Seq<FileTransfer>,
    p: spec_fn(FileTransfer) -> bool,
    i: int,
)
    requires
        0 <= i < ts.len(),
    ensures
        ts.take(i + 1).filter(p) == if p(ts[i]) {
            ts.take(i).filter(p).push(ts[i])
        } else {
            ts.take(i).filter(p)
        },
{
    reveal(Seq::filter);
    assert(ts.take(i + 1).drop_last() =~= ts.take(i));
    assert(ts.take(i + 1).last() == ts[i]);
}

/// Filtering a table with unique ids keeps them unique.
proof fn lemma_transfer_filter_unique(
    ts: Seq<FileTransfer>,
    p: spec_fn(FileTransfer) -> bool,
    a: int,
    b: int,
)
    requires
        forall|i: int, j: int| 0 <= i < j < ts.len() ==> ts[i]@.id != ts[j]@.id,
        0 <= a < b < ts.filter(p).len(),
    ensures
        ts.filter(p)[a]@.id != ts.filter(p)[b]@.id,
    decreases ts.len(),
{
    reveal(Seq::filter);
    ts.lemma_filter_len(p);
    let rest = ts.drop_last();
    let last = ts.last();
    let frest = rest.filter(p);
    assert forall|i: int, j: int|
        0 <= i < j < rest.len() implies #[trigger] rest[i]@.id != #[trigger] rest[j]@.id by {
        assert(rest[i] == ts[i] && rest[j] == ts[j]);
    }
    if b < frest.len() {
        lemma_transfer_filter_unique(rest, p, a, b);
        assert(ts.filter(p)[a] == frest[a] && ts.filter(p)[b] == frest[b]);
    } else {
        assert(p(last) && b == frest.len() && ts.filter(p) == frest.push(last));
        assert(ts.filter(p)[b] == last);
        assert(ts.filter(p)[a] == frest[a]);
        assert(frest.contains(frest[a]));
        rest.lemma_filter_contains_rev(p, frest[a]);
        let i = choose|i: int| 0 <= i < rest.len() && rest[i] == frest[a];
        assert(ts[i] == frest[a]);
        assert(ts[i]@.id != ts[ts.len() - 1]@.id);
    }
}

} // verus!
