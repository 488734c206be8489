pub mod color;
pub mod confirmation_style;
pub mod formatting;
pub mod input_style;
pub mod label_style;
pub mod multiselection_style;
pub mod option_marker;
pub mod selection_style;

pub use color::Color;
pub use confirmation_style::ConfirmationStyle;
pub use formatting::{formatted_text, plain_formatting, reset_formatting, Formatting, FormattingOption, FormattingView};
pub use input_style::InputStyle;
pub use label_style::{bold_formatting, colored, default_label_style, label_ops, LabelStyle, LabelStyleView};
pub use multiselection_style::MultiselectionStyle;
pub use option_marker::OptionMarkerStyle;
pub use selection_style::SelectionStyle;
