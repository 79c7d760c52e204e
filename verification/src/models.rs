//! Records that the application keeps and shows: users, audit entries,
//! active sessions, stock movements, history filters, and the status
//! records of the licence, the cloud sync and the user interface.
use vstd::prelude::*;

verus! {

/// The user signed in to the desk application.
#[derive(Clone, Debug)]
pub struct CurrentUser {
    pub id: String,
    pub username: String,
    pub full_name: String,
    pub role: String,
    /// JSON object with the user's limits (such as `discount_limit`).
    pub permissions: String,
    pub must_change_password: bool,
}

/// A session running at a station.
#[derive(Clone, Debug)]
pub struct ActiveSession {
    pub station_id: String,
    pub station_name: String,
    pub customer: String,
    /// RFC 3339 start time.
    pub start_time: String,
    pub rate_type: String,
    pub notes: String,
    pub tags: String,
    /// RFC 3339 time the current pause began, if paused.
    pub paused_at: Option<String>,
    pub total_paused_seconds: i64,
    pub extra_controllers: i64,
}

/// One change of a product's stock.
#[derive(Clone, Debug)]
pub struct StockMovement {
    pub id: String,
    pub drink_id: String,
    pub drink_name: String,
    pub change_amount: i64,
    pub stock_after: i64,
    pub reason: String,
    pub created_at: String,
}

/// Conditions on the session history to list; each one set narrows it.
#[derive(Clone, Debug, Default)]
pub struct HistoryFilter {
    pub start_date: Option<String>,
    pub end_date: Option<String>,
    pub station_name: Option<String>,
    pub payment_method: Option<String>,
    pub customer: Option<String>,
    pub min_duration: Option<i64>,
    pub max_duration: Option<i64>,
}

/// A user as the administrator lists them.
#[derive(Clone, Debug)]
pub struct UserRecord {
    pub id: String,
    pub username: String,
    pub full_name: String,
    pub role: String,
    pub active: i64,
    pub permissions: String,
    pub created_at: String,
}

/// One entry of the audit log.
#[derive(Clone, Debug)]
pub struct AuditRecord {
    pub id: String,
    pub user_name: String,
    pub action: String,
    pub entity: String,
    pub detail: String,
    pub created_at: String,
}

/// The licence status shown to the user: `state` is `licensed`, `trial`,
/// `expired` or `locked`.
#[derive(Clone, Debug)]
pub struct LicenseStatus {
    pub state: String,
    pub license_id: Option<String>,
    pub business_name: Option<String>,
    pub trial_days_left: Option<i64>,
    pub message: Option<String>,
}

/// The outcome of the latest cloud synchronisation.
#[derive(Clone, Debug)]
pub struct SyncStatus {
    pub ok: bool,
    pub last_at: Option<String>,
    pub last_error: Option<String>,
}

/// Branding the user interface shows.
#[derive(Clone, Debug)]
pub struct UiConfig {
    pub business_name: String,
    pub business_name_upper: String,
}

} // verus!
