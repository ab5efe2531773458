//! The structured form of the DNS traffic the protocol reads and writes.
//!
//! The codec never touches the binary DNS envelope; it works on the decoded
//! structure: a query is a transaction id plus question names (each name a
//! sequence of labels, each label raw bytes), and an answer record is either
//! an address record, a canonical-name record, or a record type the protocol
//! does not use.

use vstd::prelude::*;

verus! {

/// The labels of a name, each as its raw bytes.
pub open spec fn labels_view(s: Seq<Vec<u8>>) -> Seq<Seq<u8>> {
    s.map_values(|l: Vec<u8>| l@)
}

/// Pushes one label, extending the name's label view by the label's bytes.
pub(crate) fn push_label(labels: &mut Vec<Vec<u8>>, lab: Vec<u8>)
    ensures
        labels_view(final(labels)@) == labels_view(old(labels)@).push(lab@),
{
    let ghost prev = labels@;
    let ghost lv = lab@;
    let ghost prev_plus = prev.push(lab);
    labels.push(lab);
    proof {
        assert(labels@ == prev_plus);
        assert forall|k: int| 0 <= k < prev.len() implies labels_view(labels@)[k] == labels_view(
            prev,
        )[k] by {
            assert(prev_plus[k] == prev[k]);
        }
        assert(prev_plus[prev.len() as int]@ == lv);
        assert(labels_view(labels@) =~= labels_view(prev).push(lv));
    }
}

/// The fixed configuration of the request codec: the magic label that marks
/// protocol traffic and the subdomain suffix labels of the receiver's zone.
pub struct CodecConfigView {
    pub magic: Seq<u8>,
    pub sub_domain: Seq<Seq<u8>>,
}

/// One DNS question name: its labels, left to right.
#[derive(Debug, Clone, PartialEq, Eq)]
pub struct QueryName {
    pub labels: Vec<Vec<u8>>,
}

impl View for QueryName {
    type V = Seq<Seq<u8>>;

    open spec fn view(&self) -> Seq<Seq<u8>> {
        labels_view(self.labels@)
    }
}

/// A DNS query: the transaction id and the question names.
#[derive(Debug, Clone, PartialEq, Eq)]
pub struct DnsQuery {
    pub id: u16,
    pub queries: Vec<QueryName>,
}

/// The mathematical value of a query: id plus the label sequences of its
/// question names.
pub struct DnsQueryView {
    pub id: u16,
    pub queries: Seq<Seq<Seq<u8>>>,
}

impl View for DnsQuery {
    type V = DnsQueryView;

    open spec fn view(&self) -> DnsQueryView {
        DnsQueryView { id: self.id, queries: self.queries@.map_values(|q: QueryName| q@) }
    }
}

/// The data of one DNS answer record, as far as the protocol reads it: an
/// address record, a canonical-name record (its target name's labels), or
/// any other record type.
#[derive(Debug, Clone, PartialEq, Eq)]
pub enum RecordData {
    A { o0: u8, o1: u8, o2: u8, o3: u8 },
    Cname { labels: Vec<Vec<u8>> },
    Unsupported,
}

/// The mathematical value of an answer record's data.
pub enum RecordDataView {
    A { o0: u8, o1: u8, o2: u8, o3: u8 },
    Cname { labels: Seq<Seq<u8>> },
    Unsupported,
}

impl View for RecordData {
    type V = RecordDataView;

    open spec fn view(&self) -> RecordDataView {
        match self {
            RecordData::A { o0, o1, o2, o3 } => RecordDataView::A {
                o0: *o0,
                o1: *o1,
                o2: *o2,
                o3: *o3,
            },
            RecordData::Cname { labels } => RecordDataView::Cname { labels: labels_view(labels@) },
            RecordData::Unsupported => RecordDataView::Unsupported,
        }
    }
}

} // verus!
