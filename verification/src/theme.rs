//! UI theme palettes and the stylesheet rendered from one.

use vstd::prelude::*;

use crate::config::Theme;

verus! {

/// One palette of UI colours, each a hex colour text such as `#2196F3`.
#[derive(Debug, Clone)]
pub struct ThemeColors {
    pub primary: String,
    pub background: String,
    pub secondary_background: String,
    pub text: String,
    pub secondary_text: String,
    pub border: String,
    pub success: String,
    pub warning: String,
    pub error: String,
}

/// The widget stylesheet rendered from a palette: the fixed template with
/// the palette's colours spliced in.
pub open spec fn spec_stylesheet(t: ThemeColors) -> Seq<char> {
    "\nQMainWindow {\n    background-color: "@ + t.background@ + ";\n}\n\nQWidget {\n    color: "@ + t.text@ + ";\n    background-color: "@ + t.background@ + ";\n    font-family: \"Segoe UI\", \"Microsoft YaHei\", sans-serif;\n    font-size: 14px;\n}\n\nQPushButton {\n    background-color: "@ + t.primary@ + ";\n    color: white;\n    border: none;\n    border-radius: 4px;\n    padding: 8px 16px;\n    min-width: 80px;\n}\n\nQPushButton:hover {\n    background-color: "@ + t.primary@ + ";\n    opacity: 0.9;\n}\n\nQPushButton:pressed {\n    background-color: "@ + t.primary@ + ";\n    opacity: 0.8;\n}\n\nQPushButton:disabled {\n    background-color: "@ + t.secondary_background@ + ";\n    color: "@ + t.secondary_text@ + ";\n}\n\nQLineEdit, QTextEdit {\n    background-color: "@ + t.secondary_background@ + ";\n    border: 1px solid "@ + t.border@ + ";\n    border-radius: 4px;\n    padding: 6px;\n    color: "@ + t.text@ + ";\n}\n\nQLineEdit:focus, QTextEdit:focus {\n    border: 2px solid "@ + t.primary@ + ";\n}\n\nQListWidget, QTreeWidget, QTableWidget {\n    background-color: "@ + t.background@ + ";\n    border: 1px solid "@ + t.border@ + ";\n    border-radius: 4px;\n    color: "@ + t.text@ + ";\n}\n\nQListWidget::item:selected, QTreeWidget::item:selected, QTableWidget::item:selected {\n    background-color: "@ + t.primary@ + ";\n    color: white;\n}\n\nQListWidget::item:hover, QTreeWidget::item:hover, QTableWidget::item:hover {\n    background-color: "@ + t.secondary_background@ + ";\n}\n\nQProgressBar {\n    border: 1px solid "@ + t.border@ + ";\n    border-radius: 4px;\n    text-align: center;\n    background-color: "@ + t.secondary_background@ + ";\n}\n\nQProgressBar::chunk {\n    background-color: "@ + t.primary@ + ";\n    border-radius: 3px;\n}\n\nQLabel {\n    color: "@ + t.text@ + ";\n    background-color: transparent;\n}\n\nQGroupBox {\n    border: 1px solid "@ + t.border@ + ";\n    border-radius: 4px;\n    margin-top: 10px;\n    padding-top: 10px;\n    color: "@ + t.text@ + ";\n}\n\nQGroupBox::title {\n    subcontrol-origin: margin;\n    subcontrol-position: top left;\n    padding: 0 5px;\n    color: "@ + t.text@ + ";\n}\n\nQMenuBar {\n    background-color: "@ + t.background@ + ";\n    color: "@ + t.text@ + ";\n}\n\nQMenuBar::item:selected {\n    background-color: "@ + t.secondary_background@ + ";\n}\n\nQMenu {\n    background-color: "@ + t.background@ + ";\n    border: 1px solid "@ + t.border@ + ";\n    color: "@ + t.text@ + ";\n}\n\nQMenu::item:selected {\n    background-color: "@ + t.primary@ + ";\n    color: white;\n}\n\nQToolBar {\n    background-color: "@ + t.secondary_background@ + ";\n    border: none;\n    spacing: 3px;\n}\n\nQStatusBar {\n    background-color: "@ + t.secondary_background@ + ";\n    color: "@ + t.text@ + ";\n}\n\nQScrollBar:vertical {\n    border: none;\n    background-color: "@ + t.secondary_background@ + ";\n    width: 12px;\n    margin: 0px;\n}\n\nQScrollBar::handle:vertical {\n    background-color: "@ + t.border@ + ";\n    min-height: 20px;\n    border-radius: 6px;\n}\n\nQScrollBar::handle:vertical:hover {\n    background-color: "@ + t.secondary_text@ + ";\n}\n\nQScrollBar::add-line:vertical, QScrollBar::sub-line:vertical {\n    height: 0px;\n}\n\nQScrollBar:horizontal {\n    border: none;\n    background-color: "@ + t.secondary_background@ + ";\n    height: 12px;\n    margin: 0px;\n}\n\nQScrollBar::handle:horizontal {\n    background-color: "@ + t.border@ + ";\n    min-width: 20px;\n    border-radius: 6px;\n}\n\nQScrollBar::handle:horizontal:hover {\n    background-color: "@ + t.secondary_text@ + ";\n}\n\nQScrollBar::add-line:horizontal, QScrollBar::sub-line:horizontal {\n    width: 0px;\n}\n\nQComboBox {\n    background-color: "@ + t.secondary_background@ + ";\n    border: 1px solid "@ + t.border@ + ";\n    border-radius: 4px;\n    padding: 6px;\n    color: "@ + t.text@ + ";\n}\n\nQComboBox:hover {\n    border: 1px solid "@ + t.primary@ + ";\n}\n\nQComboBox::drop-down {\n    border: none;\n}\n\nQComboBox QAbstractItemView {\n    background-color: "@ + t.background@ + ";\n    border: 1px solid "@ + t.border@ + ";\n    selection-background-color: "@ + t.primary@ + ";\n    color: "@ + t.text@ + ";\n}\n\nQCheckBox, QRadioButton {\n    color: "@ + t.text@ + ";\n}\n\nQCheckBox::indicator, QRadioButton::indicator {\n    width: 18px;\n    height: 18px;\n    border: 2px solid "@ + t.border@ + ";\n    border-radius: 3px;\n    background-color: "@ + t.background@ + ";\n}\n\nQCheckBox::indicator:checked, QRadioButton::indicator:checked {\n    background-color: "@ + t.primary@ + ";\n    border-color: "@ + t.primary@ + ";\n}\n\nQTabWidget::pane {\n    border: 1px solid "@ + t.border@ + ";\n    background-color: "@ + t.background@ + ";\n}\n\nQTabBar::tab {\n    background-color: "@ + t.secondary_background@ + ";\n    color: "@ + t.text@ + ";\n    padding: 8px 16px;\n    border: 1px solid "@ + t.border@ + ";\n    border-bottom: none;\n    border-top-left-radius: 4px;\n    border-top-right-radius: 4px;\n}\n\nQTabBar::tab:selected {\n    background-color: "@ + t.background@ + ";\n    color: "@ + t.primary@ + ";\n}\n\nQTabBar::tab:hover {\n    background-color: "@ + t.border@ + ";\n}\n"@
}

impl ThemeColors {
    /// The light palette.
    pub fn light() -> (t: ThemeColors)
        ensures
            t.primary@ == "#2196F3"@,
            t.background@ == "#FFFFFF"@,
            t.secondary_background@ == "#F5F5F5"@,
            t.text@ == "#212121"@,
            t.secondary_text@ == "#757575"@,
            t.border@ == "#E0E0E0"@,
            t.success@ == "#4CAF50"@,
            t.warning@ == "#FF9800"@,
            t.error@ == "#F44336"@,
    {
        ThemeColors {
            primary: "#2196F3".to_owned(),
            background: "#FFFFFF".to_owned(),
            secondary_background: "#F5F5F5".to_owned(),
            text: "#212121".to_owned(),
            secondary_text: "#757575".to_owned(),
            border: "#E0E0E0".to_owned(),
            success: "#4CAF50".to_owned(),
            warning: "#FF9800".to_owned(),
            error: "#F44336".to_owned(),
        }
    }

    /// The dark palette.
    pub fn dark() -> (t: ThemeColors)
        ensures
            t.primary@ == "#42A5F5"@,
            t.background@ == "#1E1E1E"@,
            t.secondary_background@ == "#2D2D2D"@,
            t.text@ == "#E0E0E0"@,
            t.secondary_text@ == "#B0B0B0"@,
            t.border@ == "#404040"@,
            t.success@ == "#66BB6A"@,
            t.warning@ == "#FFA726"@,
            t.error@ == "#EF5350"@,
    {
        ThemeColors {
            primary: "#42A5F5".to_owned(),
            background: "#1E1E1E".to_owned(),
            secondary_background: "#2D2D2D".to_owned(),
            text: "#E0E0E0".to_owned(),
            secondary_text: "#B0B0B0".to_owned(),
            border: "#404040".to_owned(),
            success: "#66BB6A".to_owned(),
            warning: "#FFA726".to_owned(),
            error: "#EF5350".to_owned(),
        }
    }

    /// The palette of a configured theme choice: dark for `Dark`, and light
    /// for `Light` and for `System` (whose resolution against the desktop is
    /// the caller's concern).
    pub fn from_config_theme(theme: Theme) -> (t: ThemeColors)
        ensures
            theme == Theme::Dark ==> t.background@ == "#1E1E1E"@ && t.primary@ == "#42A5F5"@,
            theme != Theme::Dark ==> t.background@ == "#FFFFFF"@ && t.primary@ == "#2196F3"@,
    {
        match theme {
            Theme::Dark => Self::dark(),
            Theme::Light => Self::light(),
            Theme::System => Self::light(),
        }
    }

    /// Renders the widget stylesheet, exactly as [`spec_stylesheet`] states.
    pub fn to_stylesheet(&self) -> (r: String)
        ensures
            r@ == spec_stylesheet(*self),
    {
        let mut s = "\nQMainWindow {\n    background-color: ".to_owned();
        s.append(self.background.as_str());
        s.append(";\n}\n\nQWidget {\n    color: ");
        s.append(self.text.as_str());
        s.append(";\n    background-color: ");
        s.append(self.background.as_str());
        s.append(";\n    font-family: \"Segoe UI\", \"Microsoft YaHei\", sans-serif;\n    font-size: 14px;\n}\n\nQPushButton {\n    background-color: ");
        s.append(self.primary.as_str());
        s.append(";\n    color: white;\n    border: none;\n    border-radius: 4px;\n    padding: 8px 16px;\n    min-width: 80px;\n}\n\nQPushButton:hover {\n    background-color: ");
        s.append(self.primary.as_str());
        s.append(";\n    opacity: 0.9;\n}\n\nQPushButton:pressed {\n    background-color: ");
        s.append(self.primary.as_str());
        s.append(";\n    opacity: 0.8;\n}\n\nQPushButton:disabled {\n    background-color: ");
        s.append(self.secondary_background.as_str());
        s.append(";\n    color: ");
        s.append(self.secondary_text.as_str());
        s.append(";\n}\n\nQLineEdit, QTextEdit {\n    background-color: ");
        s.append(self.secondary_background.as_str());
        s.append(";\n    border: 1px solid ");
        s.append(self.border.as_str());
        s.append(";\n    border-radius: 4px;\n    padding: 6px;\n    color: ");
        s.append(self.text.as_str());
        s.append(";\n}\n\nQLineEdit:focus, QTextEdit:focus {\n    border: 2px solid ");
        s.append(self.primary.as_str());
        s.append(";\n}\n\nQListWidget, QTreeWidget, QTableWidget {\n    background-color: ");
        s.append(self.background.as_str());
        s.append(";\n    border: 1px solid ");
        s.append(self.border.as_str());
        s.append(";\n    border-radius: 4px;\n    color: ");
        s.append(self.text.as_str());
        s.append(";\n}\n\nQListWidget::item:selected, QTreeWidget::item:selected, QTableWidget::item:selected {\n    background-color: ");
        s.append(self.primary.as_str());
        s.append(";\n    color: white;\n}\n\nQListWidget::item:hover, QTreeWidget::item:hover, QTableWidget::item:hover {\n    background-color: ");
        s.append(self.secondary_background.as_str());
        s.append(";\n}\n\nQProgressBar {\n    border: 1px solid ");
        s.append(self.border.as_str());
        s.append(";\n    border-radius: 4px;\n    text-align: center;\n    background-color: ");
        s.append(self.secondary_background.as_str());
        s.append(";\n}\n\nQProgressBar::chunk {\n    background-color: ");
        s.append(self.primary.as_str());
        s.append(";\n    border-radius: 3px;\n}\n\nQLabel {\n    color: ");
        s.append(self.text.as_str());
        s.append(";\n    background-color: transparent;\n}\n\nQGroupBox {\n    border: 1px solid ");
        s.append(self.border.as_str());
        s.append(";\n    border-radius: 4px;\n    margin-top: 10px;\n    padding-top: 10px;\n    color: ");
        s.append(self.text.as_str());
        s.append(";\n}\n\nQGroupBox::title {\n    subcontrol-origin: margin;\n    subcontrol-position: top left;\n    padding: 0 5px;\n    color: ");
        s.append(self.text.as_str());
        s.append(";\n}\n\nQMenuBar {\n    background-color: ");
        s.append(self.background.as_str());
        s.append(";\n    color: ");
        s.append(self.text.as_str());
        s.append(";\n}\n\nQMenuBar::item:selected {\n    background-color: ");
        s.append(self.secondary_background.as_str());
        s.append(";\n}\n\nQMenu {\n    background-color: ");
        s.append(self.background.as_str());
        s.append(";\n    border: 1px solid ");
        s.append(self.border.as_str());
        s.append(";\n    color: ");
        s.append(self.text.as_str());
        s.append(";\n}\n\nQMenu::item:selected {\n    background-color: ");
        s.append(self.primary.as_str());
        s.append(";\n    color: white;\n}\n\nQToolBar {\n    background-color: ");
        s.append(self.secondary_background.as_str());
        s.append(";\n    border: none;\n    spacing: 3px;\n}\n\nQStatusBar {\n    background-color: ");
        s.append(self.secondary_background.as_str());
        s.append(";\n    color: ");
        s.append(self.text.as_str());
        s.append(";\n}\n\nQScrollBar:vertical {\n    border: none;\n    background-color: ");
        s.append(self.secondary_background.as_str());
        s.append(";\n    width: 12px;\n    margin: 0px;\n}\n\nQScrollBar::handle:vertical {\n    background-color: ");
        s.append(self.border.as_str());
        s.append(";\n    min-height: 20px;\n    border-radius: 6px;\n}\n\nQScrollBar::handle:vertical:hover {\n    background-color: ");
        s.append(self.secondary_text.as_str());
        s.append(";\n}\n\nQScrollBar::add-line:vertical, QScrollBar::sub-line:vertical {\n    height: 0px;\n}\n\nQScrollBar:horizontal {\n    border: none;\n    background-color: ");
        s.append(self.secondary_background.as_str());
        s.append(";\n    height: 12px;\n    margin: 0px;\n}\n\nQScrollBar::handle:horizontal {\n    background-color: ");
        s.append(self.border.as_str());
        s.append(";\n    min-width: 20px;\n    border-radius: 6px;\n}\n\nQScrollBar::handle:horizontal:hover {\n    background-color: ");
        s.append(self.secondary_text.as_str());
        s.append(";\n}\n\nQScrollBar::add-line:horizontal, QScrollBar::sub-line:horizontal {\n    width: 0px;\n}\n\nQComboBox {\n    background-color: ");
        s.append(self.secondary_background.as_str());
        s.append(";\n    border: 1px solid ");
        s.append(self.border.as_str());
        s.append(";\n    border-radius: 4px;\n    padding: 6px;\n    color: ");
        s.append(self.text.as_str());
        s.append(";\n}\n\nQComboBox:hover {\n    border: 1px solid ");
        s.append(self.primary.as_str());
        s.append(";\n}\n\nQComboBox::drop-down {\n    border: none;\n}\n\nQComboBox QAbstractItemView {\n    background-color: ");
        s.append(self.background.as_str());
        s.append(";\n    border: 1px solid ");
        s.append(self.border.as_str());
        s.append(";\n    selection-background-color: ");
        s.append(self.primary.as_str());
        s.append(";\n    color: ");
        s.append(self.text.as_str());
        s.append(";\n}\n\nQCheckBox, QRadioButton {\n    color: ");
        s.append(self.text.as_str());
        s.append(";\n}\n\nQCheckBox::indicator, QRadioButton::indicator {\n    width: 18px;\n    height: 18px;\n    border: 2px solid ");
        s.append(self.border.as_str());
        s.append(";\n    border-radius: 3px;\n    background-color: ");
        s.append(self.background.as_str());
        s.append(";\n}\n\nQCheckBox::indicator:checked, QRadioButton::indicator:checked {\n    background-color: ");
        s.append(self.primary.as_str());
        s.append(";\n    border-color: ");
        s.append(self.primary.as_str());
        s.append(";\n}\n\nQTabWidget::pane {\n    border: 1px solid ");
        s.append(self.border.as_str());
        s.append(";\n    background-color: ");
        s.append(self.background.as_str());
        s.append(";\n}\n\nQTabBar::tab {\n    background-color: ");
        s.append(self.secondary_background.as_str());
        s.append(";\n    color: ");
        s.append(self.text.as_str());
        s.append(";\n    padding: 8px 16px;\n    border: 1px solid ");
        s.append(self.border.as_str());
        s.append(";\n    border-bottom: none;\n    border-top-left-radius: 4px;\n    border-top-right-radius: 4px;\n}\n\nQTabBar::tab:selected {\n    background-color: ");
        s.append(self.background.as_str());
        s.append(";\n    color: ");
        s.append(self.primary.as_str());
        s.append(";\n}\n\nQTabBar::tab:hover {\n    background-color: ");
        s.append(self.border.as_str());
        s.append(";\n}\n");
        s
    }
}

} // verus!
