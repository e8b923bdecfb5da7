//! The error kinds that commands report to the host.

use vstd::prelude::*;
use crate::text::{dec_str, u64_to_string};

verus! {

/// Spec-level form of an error, with text as character sequences.
pub enum ErrorView {
    Terminal,
    NotInitialized,
    WidgetNotFound(u64),
    InvalidArgument { field: Seq<char>, pane: Option<usize> },
}

/// An error reported to the host as a labeled failure.
///
/// `Terminal` is an OS-level raw-mode, alternate-screen or draw failure;
/// `NotInitialized` means a render was attempted before `init`;
/// `WidgetNotFound` names the identity that resolved to no stored
/// definition; `InvalidArgument` names the malformed or missing field and,
/// for per-pane fields, the pane index. A malformed percentage string is
/// not an error: it is recovered locally with a default (see the size
/// resolution in `widgets`).
#[derive(Clone, Debug)]
pub enum UiError {
    Terminal,
    NotInitialized,
    WidgetNotFound(u64),
    InvalidArgument { field: String, pane: Option<usize> },
}

impl View for UiError {
    type V = ErrorView;

    open spec fn view(&self) -> ErrorView {
        match self {
            UiError::Terminal => ErrorView::Terminal,
            UiError::NotInitialized => ErrorView::NotInitialized,
            UiError::WidgetNotFound(id) => ErrorView::WidgetNotFound(*id),
            UiError::InvalidArgument { field, pane } => ErrorView::InvalidArgument {
                field: field@,
                pane: *pane,
            },
        }
    }
}

/// The user-facing text of each error kind.
pub open spec fn spec_message(e: ErrorView) -> Seq<char> {
    match e {
        ErrorView::Terminal => "Terminal operation failed"@,
        ErrorView::NotInitialized => "Terminal not initialized. Run 'datatui init' first."@,
        ErrorView::WidgetNotFound(id) => "Widget with ID "@ + dec_str(id as int) + " not found"@,
        ErrorView::InvalidArgument { field, pane } => match pane {
            None => "Invalid or missing field '"@ + field + "'"@,
            Some(i) => "Invalid or missing field '"@ + field + "' in pane "@ + dec_str(i as int),
        },
    }
}

impl UiError {
    /// The user-facing text of the error.
    pub fn message(&self) -> (r: String)
        ensures
            r@ == spec_message(self@),
    {
        match self {
            UiError::Terminal => String::from_str("Terminal operation failed"),
            UiError::NotInitialized => String::from_str(
                "Terminal not initialized. Run 'datatui init' first.",
            ),
            UiError::WidgetNotFound(id) => {
                let mut s = String::from_str("Widget with ID ");
                let digits = u64_to_string(*id);
                s.append(digits.as_str());
                s.append(" not found");
                s
            },
            UiError::InvalidArgument { field, pane } => {
                let mut s = String::from_str("Invalid or missing field '");
                s.append(field.as_str());
                match pane {
                    None => {
                        s.append("'");
                    },
                    Some(i) => {
                        s.append("' in pane ");
                        let digits = u64_to_string(*i as u64);
                        s.append(digits.as_str());
                    },
                }
                s
            },
        }
    }
}

} // verus!
