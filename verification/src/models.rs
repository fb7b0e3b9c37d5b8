//! The records that travel between the ERP, the web page and the printer.
use vstd::prelude::*;

verus! {

/// A production order as staged by the ERP.
#[derive(Debug, Clone)]
pub struct ERPLabelData {
    /// Production order id (P992383).
    pub prod_id: String,
    /// Part number (7113800055).
    pub item_id: String,
    /// Brand (Ford, AEROKLAS, ...).
    pub brand_name: String,
    /// LH or RH.
    pub side: String,
    /// Planned quantity.
    pub plan_qty: i32,
}

/// The request that starts production from the web page.
#[derive(Debug)]
pub struct StartProductionRequest {
    /// Production order id.
    pub prod_id: String,
    /// Part number.
    pub item_id: String,
    /// Brand name.
    pub brand_name: String,
    /// LH or RH.
    pub side: String,
    /// Planned quantity.
    pub plan_qty: i32,
    /// Machine chosen by the operator (D9, E2, G7).
    pub machine_id: String,
    /// Shift chosen by the operator (1, 2, 3).
    pub shift: i32,
}

/// Everything printed on one label.
#[derive(Debug, Clone)]
pub struct CompleteLabelData {
    /// Production order id (P992383).
    pub prod_id: String,
    /// Part number (7113800055).
    pub item_id: String,
    /// Brand (Ford).
    pub brand_name: String,
    /// LH or RH.
    pub side: String,
    /// Planned quantity (100).
    pub plan_qty: i32,
    /// Batch number (260202G71).
    pub batch_no: String,
    /// Running number, four digits (0001).
    pub running_no: String,
    /// Machine (G7).
    pub machine_id: String,
    /// Shift (1).
    pub shift: i32,
    /// QR payload (ARKR-7113800055-260202G71-0001-LH-P992383).
    pub qr_code: String,
}

/// The answer after a label was printed.
pub struct PrintResponse {
    /// "PRINT_SUCCESS".
    pub status: String,
    /// Production order id.
    pub prod_id: String,
    /// Running number (0001).
    pub running_no: String,
    /// Batch number.
    pub batch_no: String,
    /// Labels still to print.
    pub remaining: i32,
    /// QR payload.
    pub qr_code: String,
}

/// Production progress for the web page.
pub struct ProductionStatus {
    /// Production order id.
    pub prod_id: String,
    /// Part number.
    pub item_id: String,
    /// Brand name.
    pub brand_name: String,
    /// LH or RH.
    pub side: String,
    /// Batch number.
    pub batch_no: String,
    /// Labels printed so far.
    pub current_running: i32,
    /// Planned quantity.
    pub plan_qty: i32,
    /// Machine.
    pub machine_id: String,
    /// Shift.
    pub shift: i32,
    /// ACTIVE, PAUSED or COMPLETED.
    pub status: String,
}

} // verus!
