//! Reads a whole message: the streams of the message itself fill its fields,
//! and each attachment directory gives one attachment.

use vstd::prelude::*;
use crate::attachment::{
    assembled, attachment_of, group_of, lemma_attachment_is_well_formed, parse_attachment,
};
use crate::container::{
    container_opens, read_container, read_records, records_view, ParseError, StreamRecord,
    StreamRecordView, CONTAINER_HEADER_LEN,
};
use crate::message::{attachments_view, Attachment, AttachmentView, MsgEmail, MsgEmailView};
use crate::property::{lemma_resolved_is_well_formed, parse_property, resolved};
use crate::text::{chars_of, starts_with_chars};

verus! {

/// The start of the name of a stream that holds a property.
pub open spec fn property_prefix() -> Seq<char> {
    "__substg1.0_"@
}

/// The start of the name of a directory that holds an attachment.
pub open spec fn attachment_prefix() -> Seq<char> {
    "__attach_version1.0_"@
}

/// A record whose name says that it holds a property, wherever in the tree
/// it stands.
pub open spec fn is_property_record(r: StreamRecordView) -> bool {
    property_prefix().is_prefix_of(r.name)
}

/// A record whose name says that it is the directory of an attachment.
pub open spec fn is_attachment_dir(r: StreamRecordView) -> bool {
    !is_property_record(r) && attachment_prefix().is_prefix_of(r.name)
}

/// The message after a record was looked at: a property record with a
/// content that is not empty is read into the message.
pub open spec fn with_record(m: MsgEmailView, r: StreamRecordView) -> MsgEmailView {
    if is_property_record(r) && r.data is Some && r.data->0.len() > 0 {
        resolved(m, r.name, r.data->0)
    } else {
        m
    }
}

/// The message after the records were looked at in their order.
pub open spec fn with_records(m: MsgEmailView, records: Seq<StreamRecordView>) -> MsgEmailView {
    records.fold_left(m, |m: MsgEmailView, r: StreamRecordView| with_record(m, r))
}

/// The attachment that a record gives among the records of a container:
/// that of its group if the record is an attachment directory and the group
/// is of use.
pub open spec fn attachment_for(records: Seq<StreamRecordView>, dir: StreamRecordView) -> Option<
    AttachmentView,
> {
    if is_attachment_dir(dir) {
        attachment_of(assembled(group_of(records, dir.name)))
    } else {
        None
    }
}

/// The attachments of the first `n` records, in the order of their
/// directories.
pub open spec fn attachments_upto(records: Seq<StreamRecordView>, n: int) -> Seq<AttachmentView> {
    records.take(n).filter_map(|dir: StreamRecordView| attachment_for(records, dir))
}

/// The attachments of a container, in the order of their directories.
pub open spec fn attachments_in(records: Seq<StreamRecordView>) -> Seq<AttachmentView> {
    attachments_upto(records, records.len() as int)
}

/// The message that the records of a container give.
pub open spec fn aggregated(records: Seq<StreamRecordView>) -> MsgEmailView {
    MsgEmailView {
        attachments: attachments_in(records),
        ..with_records(MsgEmailView::empty(), records)
    }
}

/// The message in the bytes of a file, or nothing where the bytes are no
/// container.
pub open spec fn parsed(bytes: Seq<u8>) -> Option<MsgEmailView> {
    match read_container(bytes) {
        Some(records) => Some(aggregated(records)),
        None => None,
    }
}

/// What came of reading a message.
pub open spec fn parse_outcome(r: Result<MsgEmail, ParseError>) -> Option<MsgEmailView> {
    match r {
        Ok(email) => Some(email@),
        Err(_) => None,
    }
}

/// Looking at records leaves a well-formed message well formed.
pub proof fn lemma_with_records_is_well_formed(m: MsgEmailView, records: Seq<StreamRecordView>)
    requires
        m.well_formed(),
    ensures
        with_records(m, records).well_formed(),
    decreases records.len(),
{
    if records.len() > 0 {
        let before = records.drop_last();
        lemma_with_records_is_well_formed(m, before);
        let r = records.last();
        lemma_resolved_is_well_formed(with_records(m, before), r.name, r.data->0);
    }
}

/// Every attachment of the first `n` records is well formed.
pub proof fn lemma_attachments_are_well_formed(records: Seq<StreamRecordView>, n: int)
    requires
        0 <= n <= records.len(),
    ensures
        forall|i: int|
            0 <= i < attachments_upto(records, n).len() ==> (#[trigger] attachments_upto(
                records,
                n,
            )[i]).well_formed(),
    decreases n,
{
    if n == 0 {
        assert(records.take(0) =~= Seq::<StreamRecordView>::empty());
    } else {
        lemma_attachments_are_well_formed(records, n - 1);
        records.lemma_filter_map_take_succ(
            |dir: StreamRecordView| attachment_for(records, dir),
            n - 1,
        );
        assert(records.take(n - 1 + 1) == records.take(n));
        lemma_attachment_is_well_formed(group_of(records, records[n - 1].name));
        let before = attachments_upto(records, n - 1);
        let now = attachments_upto(records, n);
        assert forall|i: int| 0 <= i < now.len() implies (#[trigger] now[i]).well_formed() by {
            if i < before.len() {
                assert(now[i] == before[i]);
            } else {
                assert(now[i] == attachment_for(records, records[n - 1])->0);
            }
        }
    }
}

/// The message that the records of a container give is well formed: no
/// participant is empty or blank, no attachment is hollow, and a content
/// identifier that is set is not empty.
pub proof fn lemma_aggregated_is_well_formed(records: Seq<StreamRecordView>)
    ensures
        aggregated(records).well_formed(),
{
    lemma_with_records_is_well_formed(MsgEmailView::empty(), records);
    lemma_attachments_are_well_formed(records, records.len() as int);
}

/// Reading is repeatable: two readings of the same bytes both fail or give
/// messages that hold the same.
pub proof fn lemma_parse_is_repeatable(
    bytes: Seq<u8>,
    first: Result<MsgEmail, ParseError>,
    second: Result<MsgEmail, ParseError>,
)
    requires
        parse_outcome(first) == parsed(bytes),
        parse_outcome(second) == parsed(bytes),
    ensures
        first is Ok <==> second is Ok,
        first is Ok ==> first->Ok_0@ == second->Ok_0@,
{
}

/// Aggregating is repeatable: two messages made from records that hold the
/// same hold the same.
pub proof fn lemma_aggregate_is_repeatable(
    first_records: Seq<StreamRecord>,
    second_records: Seq<StreamRecord>,
    first: MsgEmail,
    second: MsgEmail,
)
    requires
        records_view(first_records) == records_view(second_records),
        first@ == aggregated(records_view(first_records)),
        second@ == aggregated(records_view(second_records)),
    ensures
        first@ == second@,
{
}

/// Makes the message from the records of a container. Every record whose
/// name begins as a property stream's does and whose content could be read
/// and is not empty is read as a property, in the order of the records.
/// Then every record whose name begins as an attachment directory's does
/// gives the attachment of its group, unless the group is of no use.
pub fn aggregate(records: &Vec<StreamRecord>) -> (email: MsgEmail)
    ensures
        email@ == aggregated(records_view(records@)),
        email@.well_formed(),
{
    proof {
        lemma_aggregated_is_well_formed(records_view(records@));
    }
    let property_start = chars_of("__substg1.0_");
    let attachment_start = chars_of("__attach_version1.0_");
    let mut email = MsgEmail::default();
    let mut i: usize = 0;
    assert(records_view(records@).take(0) == Seq::<StreamRecordView>::empty());
    while i < records.len()
        invariant
            i <= records.len(),
            property_start@ == property_prefix(),
            email@ == with_records(MsgEmailView::empty(), records_view(records@).take(i as int)),
        decreases records.len() - i,
    {
        let record = &records[i];
        proof {
            let done = records_view(records@).take(i as int);
            assert(records_view(records@).take(i + 1) == done.push(record@));
            assert(done.push(record@).drop_last() == done);
        }
        let name = chars_of(record.name.as_str());
        if starts_with_chars(&name, &property_start) {
            if let Some(data) = &record.data {
                if data.len() > 0 {
                    parse_property(&mut email, record.name.as_str(), data.as_slice());
                }
            }
        }
        i += 1;
    }
    assert(records_view(records@).take(records@.len() as int) == records_view(records@));

    let mut attachments: Vec<Attachment> = Vec::new();
    let mut k: usize = 0;
    assert(attachments_view(attachments@) =~= attachments_upto(records_view(records@), 0));
    while k < records.len()
        invariant
            k <= records.len(),
            property_start@ == property_prefix(),
            attachment_start@ == attachment_prefix(),
            attachments_view(attachments@) == attachments_upto(
                records_view(records@),
                k as int,
            ),
        decreases records.len() - k,
    {
        let record = &records[k];
        proof {
            let all = records_view(records@);
            assert(all[k as int] == record@);
            all.lemma_filter_map_take_succ(
                |dir: StreamRecordView| attachment_for(all, dir),
                k as int,
            );
        }
        let name = chars_of(record.name.as_str());
        if !starts_with_chars(&name, &property_start) && starts_with_chars(
            &name,
            &attachment_start,
        ) {
            if let Ok(attachment) = parse_attachment(records, record.name.as_str()) {
                let ghost before = attachments@;
                let ghost added = attachment@;
                attachments.push(attachment);
                assert(attachments_view(attachments@) =~= attachments_view(before) + seq![added]);
            }
        }
        k += 1;
    }
    email.attachments = attachments;
    email
}

/// Reads the message in the bytes of a file. Fails only where the bytes are
/// no container, as are all that are shorter than the header of one; a
/// stream that cannot be read or gives nothing, and an attachment directory
/// of no use, are passed over.
pub fn parse_msg_to_struct(file_data: &[u8]) -> (r: Result<MsgEmail, ParseError>)
    ensures
        parse_outcome(r) == parsed(file_data@),
        r is Err <==> !container_opens(file_data@),
        file_data@.len() < CONTAINER_HEADER_LEN ==> r is Err,
        r matches Ok(email) ==> email@.well_formed(),
{
    match read_records(file_data) {
        Ok(records) => Ok(aggregate(&records)),
        Err(error) => Err(error),
    }
}

} // verus!
