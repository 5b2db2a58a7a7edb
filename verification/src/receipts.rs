//! Read receipts.
use vstd::prelude::*;

verus! {

/// That a user has read an event.
#[derive(Debug)]
pub struct ReadReceipt {
    /// The event that was read.
    pub event_id: String,
    /// The type of the receipt.
    pub receipt_type: String,
    /// The user who read the event.
    pub user_id: String,
    /// When they read it, in milliseconds since the Unix epoch.
    pub timestamp: Option<u64>,
    /// The thread that the receipt applies to, if it does not apply to all of the timeline.
    pub thread: Option<String>,
}

/// A read receipt as values to reason about.
pub struct ReadReceiptView {
    pub event_id: Seq<char>,
    pub receipt_type: Seq<char>,
    pub user_id: Seq<char>,
    pub timestamp: Option<u64>,
    pub thread: Option<Seq<char>>,
}

/// The text of a string that may be missing.
pub open spec fn text_of(string: Option<String>) -> Option<Seq<char>> {
    match string {
        Some(string) => Some(string@),
        None => None,
    }
}

/// Copies a string that may be missing.
pub(crate) fn copy_string(string: &Option<String>) -> (copy: Option<String>)
    ensures
        copy == *string,
{
    match string {
        Some(string) => Some(string.clone()),
        None => None,
    }
}

impl View for ReadReceipt {
    type V = ReadReceiptView;

    open spec fn view(&self) -> ReadReceiptView {
        ReadReceiptView {
            event_id: self.event_id@,
            receipt_type: self.receipt_type@,
            user_id: self.user_id@,
            timestamp: self.timestamp,
            thread: text_of(self.thread),
        }
    }
}

impl Clone for ReadReceipt {
    fn clone(&self) -> (receipt: Self)
        ensures
            receipt == *self,
    {
        ReadReceipt {
            event_id: self.event_id.clone(),
            receipt_type: self.receipt_type.clone(),
            user_id: self.user_id.clone(),
            timestamp: self.timestamp,
            thread: copy_string(&self.thread),
        }
    }
}

/// A list of read receipts as values to reason about.
pub open spec fn receipts_view(receipts: Seq<ReadReceipt>) -> Seq<ReadReceiptView> {
    receipts.map_values(|receipt: ReadReceipt| receipt@)
}

/// The read receipts that are known.
#[derive(Debug)]
pub struct ReadReceipts {
    pub receipts: Vec<ReadReceipt>,
}

impl View for ReadReceipts {
    type V = Seq<ReadReceiptView>;

    open spec fn view(&self) -> Seq<ReadReceiptView> {
        receipts_view(self.receipts@)
    }
}

impl Clone for ReadReceipts {
    fn clone(&self) -> (copy: Self)
        ensures
            copy@ == self@,
    {
        let receipts = self.receipts.clone();
        assert(receipts@ == self.receipts@);
        ReadReceipts { receipts }
    }
}

impl Default for ReadReceipts {
    fn default() -> (receipts: Self)
        ensures
            receipts@ == Seq::<ReadReceiptView>::empty(),
    {
        let receipts = ReadReceipts { receipts: Vec::new() };
        assert(receipts@ == Seq::<ReadReceiptView>::empty());
        receipts
    }
}

impl ReadReceipts {
    /// Forgets all receipts.
    pub fn clear(&mut self)
        ensures
            final(self)@ == Seq::<ReadReceiptView>::empty(),
    {
        self.receipts.clear();
        assert(self@ == Seq::<ReadReceiptView>::empty());
    }
}

} // verus!
