//! The ZPL program of a 2x2 inch label (layout C): brand and side on top,
//! the running number under the side, production order, item and batch,
//! then the QR code.
use vstd::prelude::*;

use crate::models::CompleteLabelData;
use crate::qr::{generate_qr_data, qr_data};

verus! {

/// Printer setup, then the start of the label up to the brand field.
pub const ZPL_SETUP: &'static str = "^XA\n^CI28\n^PW400\n^LL400\n\n~TA000\n~JSN\n^LT0\n^MNW\n^MTT\n^PON\n^PMN\n^LH0,0\n^JMA\n^PR4,4\n~SD15\n^JUS\n^LRN\n^XZ\n\n^XA\n^MMT\n^PW400\n^LL400\n^LS0\n\n^FO20,20^A0N,30,30^FH\\^FD";

/// Between the brand and the side.
pub const ZPL_BEFORE_SIDE: &'static str = "^FS\n^FO350,20^A0N,36,36^FH\\^FD";

/// Between the side and the running number.
pub const ZPL_BEFORE_RUNNING: &'static str = "^FS\n\n^FO350,60^A0N,28,28^FH\\^FD";

/// Between the running number and the production order.
pub const ZPL_BEFORE_PROD: &'static str = "^FS\n\n^FO20,100^A0N,24,24^FH\\^FDPROD ID: ";

/// Between the production order and the item.
pub const ZPL_BEFORE_ITEM: &'static str = "^FS\n^FO20,130^A0N,24,24^FH\\^FDITEM: ";

/// Between the item and the batch.
pub const ZPL_BEFORE_BATCH: &'static str = "^FS\n^FO20,160^A0N,24,24^FH\\^FDBATCH: ";

/// Between the batch and the QR payload.
pub const ZPL_BEFORE_QR: &'static str = "^FS\n\n^FO100,210^BQN,2,6\n^FDQA,";

/// After the QR payload: one copy, end of label.
pub const ZPL_END: &'static str = "^FS\n\n^PQ1,0,1,Y\n^XZ";

/// The ZPL program of a label whose fields are the given texts.
pub open spec fn zpl_program(
    brand_name: Seq<char>,
    side: Seq<char>,
    running_no: Seq<char>,
    prod_id: Seq<char>,
    item_id: Seq<char>,
    batch_no: Seq<char>,
    qr: Seq<char>,
) -> Seq<char> {
    ZPL_SETUP@ + brand_name + ZPL_BEFORE_SIDE@ + side + ZPL_BEFORE_RUNNING@ + running_no
        + ZPL_BEFORE_PROD@ + prod_id + ZPL_BEFORE_ITEM@ + item_id + ZPL_BEFORE_BATCH@ + batch_no
        + ZPL_BEFORE_QR@ + qr + ZPL_END@
}

/// The ZPL program of a label; its QR code holds the payload built from
/// the label's own fields.
pub open spec fn label_zpl(label: CompleteLabelData) -> Seq<char> {
    zpl_program(
        label.brand_name@,
        label.side@,
        label.running_no@,
        label.prod_id@,
        label.item_id@,
        label.batch_no@,
        qr_data(label.item_id@, label.batch_no@, label.running_no@, label.side@, label.prod_id@),
    )
}

/// Builds the ZPL program of a 2x2 inch label (layout C). The QR payload
/// is built from the item, batch, running number, side and production
/// order of the label.
pub fn generate_zpl(label: &CompleteLabelData) -> (zpl: String)
    ensures
        zpl@ == label_zpl(*label),
        zpl@ == ZPL_SETUP@ + label.brand_name@ + ZPL_BEFORE_SIDE@ + label.side@
            + ZPL_BEFORE_RUNNING@
            + label.running_no@
            + ZPL_BEFORE_PROD@
            + label.prod_id@ + ZPL_BEFORE_ITEM@ + label.item_id@ + ZPL_BEFORE_BATCH@ + label.batch_no@
            + ZPL_BEFORE_QR@ + seq!['A', 'R', 'K', 'R', '-'] + label.item_id@ + seq!['-']
            + label.batch_no@ + seq!['-'] + label.running_no@ + seq!['-'] + label.side@ + seq!['-']
            + label.prod_id@ + ZPL_END@,
{
    let qr = generate_qr_data(
        label.item_id.as_str(),
        label.batch_no.as_str(),
        label.running_no.as_str(),
        label.side.as_str(),
        label.prod_id.as_str(),
    );
    let mut zpl = String::new();
    zpl.append(ZPL_SETUP);
    zpl.append(label.brand_name.as_str());
    zpl.append(ZPL_BEFORE_SIDE);
    zpl.append(label.side.as_str());
    zpl.append(ZPL_BEFORE_RUNNING);
    zpl.append(label.running_no.as_str());
    zpl.append(ZPL_BEFORE_PROD);
    zpl.append(label.prod_id.as_str());
    zpl.append(ZPL_BEFORE_ITEM);
    zpl.append(label.item_id.as_str());
    zpl.append(ZPL_BEFORE_BATCH);
    zpl.append(label.batch_no.as_str());
    zpl.append(ZPL_BEFORE_QR);
    zpl.append(qr.as_str());
    zpl.append(ZPL_END);
    zpl
}

/// Every label program is one ZPL format between "^XA" and "^XZ" after the
/// setup format, and its QR field holds exactly the label's payload: the
/// program begins with "^XA", ends with "^XZ", and the payload stands
/// between "^FDQA," and "^FS".
pub proof fn lemma_label_zpl_frame(label: CompleteLabelData)
    ensures
        seq!['^', 'X', 'A'].is_prefix_of(label_zpl(label)),
        seq!['^', 'X', 'Z'].is_suffix_of(label_zpl(label)),
        ({
            let qr = qr_data(
                label.item_id@,
                label.batch_no@,
                label.running_no@,
                label.side@,
                label.prod_id@,
            );
            let z = label_zpl(label);
            exists|i: int|
                0 <= i && i + 6 + qr.len() + 3 <= z.len() && #[trigger] z.subrange(i, i + 6)
                    == seq!['^', 'F', 'D', 'Q', 'A', ','] && z.subrange(i + 6, i + 6 + qr.len())
                    == qr && z.subrange(i + 6 + qr.len(), i + 6 + qr.len() + 3) == seq![
                    '^',
                    'F',
                    'S',
                ]
        }),
{
    reveal_strlit("^XA\n^CI28\n^PW400\n^LL400\n\n~TA000\n~JSN\n^LT0\n^MNW\n^MTT\n^PON\n^PMN\n^LH0,0\n^JMA\n^PR4,4\n~SD15\n^JUS\n^LRN\n^XZ\n\n^XA\n^MMT\n^PW400\n^LL400\n^LS0\n\n^FO20,20^A0N,30,30^FH\\^FD");
    reveal_strlit("^FS\n\n^FO100,210^BQN,2,6\n^FDQA,");
    reveal_strlit("^FS\n\n^PQ1,0,1,Y\n^XZ");
    let qr = qr_data(label.item_id@, label.batch_no@, label.running_no@, label.side@, label.prod_id@);
    let head = ZPL_SETUP@ + label.brand_name@ + ZPL_BEFORE_SIDE@ + label.side@
        + ZPL_BEFORE_RUNNING@ + label.running_no@ + ZPL_BEFORE_PROD@ + label.prod_id@
        + ZPL_BEFORE_ITEM@ + label.item_id@ + ZPL_BEFORE_BATCH@ + label.batch_no@;
    let z = label_zpl(label);
    assert(z =~= head + ZPL_BEFORE_QR@ + qr + ZPL_END@);
    assert(ZPL_SETUP@.len() > 3);
    assert(z.take(3) =~= ZPL_SETUP@.take(3));
    assert(ZPL_SETUP@.take(3) =~= seq!['^', 'X', 'A']);
    let e = ZPL_END@;
    assert(z.subrange(z.len() - 3, z.len() as int) =~= e.subrange(e.len() - 3, e.len() as int));
    assert(e.subrange(e.len() - 3, e.len() as int) =~= seq!['^', 'X', 'Z']);
    let bq = ZPL_BEFORE_QR@;
    let i = head.len() + bq.len() - 6;
    assert(z.subrange(i, i + 6) =~= bq.subrange(bq.len() - 6, bq.len() as int));
    assert(bq.subrange(bq.len() - 6, bq.len() as int) =~= seq!['^', 'F', 'D', 'Q', 'A', ',']);
    assert(z.subrange(i + 6, i + 6 + qr.len()) =~= qr);
    assert(z.subrange(i + 6 + qr.len(), i + 6 + qr.len() + 3) =~= e.subrange(0, 3));
    assert(e.subrange(0, 3) =~= seq!['^', 'F', 'S']);
}

} // verus!
