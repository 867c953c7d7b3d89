//! App shell: run mode, navigation tabs and the latest view models of the
//! screens.

use crate::bus::{connection_status_text, ConnectionStatus};
use crate::dashboard::DashboardViewModel;
use crate::policies::PoliciesViewModel;
use vstd::prelude::*;

verus! {

/// Runtime mode: administrator when running as root.
#[derive(Debug, Clone, Copy, PartialEq, Eq)]
pub enum RenderMode {
    Admin,
    User,
}

/// `nix::unistd::Uid::current().is_root()`: whether the process runs as root;
/// this depends on the process, so nothing is stated of the result.
#[verifier::external_body]
fn current_user_is_root() -> bool {
    nix::unistd::Uid::current().is_root()
}

impl RenderMode {
    /// The mode of a process that does or does not run as root.
    pub fn from_root(is_root: bool) -> (r: RenderMode)
        ensures
            r == if is_root {
                RenderMode::Admin
            } else {
                RenderMode::User
            },
    {
        if is_root {
            RenderMode::Admin
        } else {
            RenderMode::User
        }
    }

    /// The mode of the running process.
    pub fn detect() -> (r: RenderMode) {
        RenderMode::from_root(current_user_is_root())
    }

    pub fn is_admin(&self) -> (r: bool)
        ensures
            r == (*self is Admin),
    {
        match self {
            RenderMode::Admin => true,
            RenderMode::User => false,
        }
    }

    /// `"Admin"` or `"User"`.
    pub fn label(&self) -> (r: &'static str)
        ensures
            r@ == if *self is Admin {
                "Admin"@
            } else {
                "User"@
            },
    {
        match self {
            RenderMode::Admin => "Admin",
            RenderMode::User => "User",
        }
    }
}

/// Active tab of the app shell.
#[derive(Debug, Clone, Copy, PartialEq, Eq)]
pub enum Tab {
    Dashboard,
    Policies,
    Reports,
}

impl Tab {
    /// Every tab, in navigation order.
    pub fn all() -> (r: [Tab; 3])
        ensures
            r@ == seq![Tab::Dashboard, Tab::Policies, Tab::Reports],
    {
        let r = [Tab::Dashboard, Tab::Policies, Tab::Reports];
        assert(r@ =~= seq![Tab::Dashboard, Tab::Policies, Tab::Reports]);
        r
    }

    pub fn label(&self) -> (r: &'static str)
        ensures
            r@ == match *self {
                Tab::Dashboard => "Dashboard"@,
                Tab::Policies => "Policies"@,
                Tab::Reports => "Reports"@,
            },
    {
        match self {
            Tab::Dashboard => "Dashboard",
            Tab::Policies => "Policies",
            Tab::Reports => "Reports",
        }
    }

    pub fn icon(&self) -> (r: &'static str)
        ensures
            r@ == match *self {
                Tab::Dashboard => "\u{25cf}"@,
                Tab::Policies => "\u{2699}"@,
                Tab::Reports => "\u{1f4ca}"@,
            },
    {
        match self {
            Tab::Dashboard => "\u{25cf}",
            Tab::Policies => "\u{2699}",
            Tab::Reports => "\u{1f4ca}",
        }
    }
}

/// View models sent from the background flows to the UI on a data change;
/// `None` for a screen whose data did not change or is unavailable.
#[derive(Debug, Clone)]
pub struct AppViewModels {
    pub dashboard: Option<DashboardViewModel>,
    pub policies: Option<PoliciesViewModel>,
}

/// The shell state that the UI renders from: the active tab and the latest
/// view model of each screen.
#[derive(Debug, Clone)]
pub struct ShellState {
    pub active_tab: Tab,
    pub mode: RenderMode,
    pub dashboard_vm: Option<DashboardViewModel>,
    pub policies_vm: Option<PoliciesViewModel>,
}

impl ShellState {
    /// A shell on the dashboard tab with no view model yet.
    pub fn new(mode: RenderMode) -> (r: ShellState)
        ensures
            r.active_tab == Tab::Dashboard,
            r.mode == mode,
            r.dashboard_vm is None,
            r.policies_vm is None,
    {
        ShellState { active_tab: Tab::Dashboard, mode, dashboard_vm: None, policies_vm: None }
    }

    pub fn switch_tab(&mut self, tab: Tab)
        ensures
            final(self).active_tab == tab,
            final(self).mode == old(self).mode,
            final(self).dashboard_vm == old(self).dashboard_vm,
            final(self).policies_vm == old(self).policies_vm,
    {
        self.active_tab = tab;
    }

    /// Store the view models present in the bundle; screens absent from it
    /// keep their latest view model.
    pub fn apply_viewmodels(&mut self, vms: AppViewModels)
        ensures
            final(self).active_tab == old(self).active_tab,
            final(self).mode == old(self).mode,
            final(self).dashboard_vm == if vms.dashboard is Some {
                vms.dashboard
            } else {
                old(self).dashboard_vm
            },
            final(self).policies_vm == if vms.policies is Some {
                vms.policies
            } else {
                old(self).policies_vm
            },
    {
        let AppViewModels { dashboard, policies } = vms;
        match dashboard {
            Some(vm) => {
                self.dashboard_vm = Some(vm);
            },
            None => {},
        }
        match policies {
            Some(vm) => {
                self.policies_vm = Some(vm);
            },
            None => {},
        }
    }

    /// `"Admin"` or `"User"`.
    pub fn mode_label(&self) -> (r: &'static str)
        ensures
            r@ == if self.mode is Admin {
                "Admin"@
            } else {
                "User"@
            },
    {
        self.mode.label()
    }
}

/// The banner text of a connection status, or `"Unknown"` when the status
/// could not be read.
pub fn connection_status_label(status: Option<ConnectionStatus>) -> (r: &'static str)
    ensures
        match status {
            Some(s) => r@ == match s {
                ConnectionStatus::Connected(crate::bus::BusType::System) => "Connected (System)"@,
                ConnectionStatus::Connected(crate::bus::BusType::Session) => "Connected (Session)"@,
                ConnectionStatus::Disconnected => "Disconnected"@,
            },
            None => r@ == "Unknown"@,
        },
{
    match status {
        Some(s) => connection_status_text(s),
        None => "Unknown",
    }
}

} // verus!
