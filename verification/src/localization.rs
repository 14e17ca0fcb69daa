//! The texts that depend on the language of the user.
use vstd::prelude::*;

verus! {

/// The texts of one language.
#[derive(Clone, Copy, Debug)]
pub struct Strings {
    /// The title of the widget's window.
    pub window_title: &'static str,
    /// The label of the short usage window.
    pub session_window: &'static str,
    /// The label of the long usage window.
    pub weekly_window: &'static str,
    /// What stands for a countdown that has run out.
    pub now: &'static str,
    /// What follows a number of days.
    pub day_suffix: &'static str,
    /// What follows a number of hours.
    pub hour_suffix: &'static str,
    /// What follows a number of minutes.
    pub minute_suffix: &'static str,
    /// What follows a number of seconds.
    pub second_suffix: &'static str,
    /// Menu: poll at once.
    pub refresh: &'static str,
    /// Menu: the submenu of poll intervals.
    pub update_frequency: &'static str,
    /// Menu: poll every minute.
    pub one_minute: &'static str,
    /// Menu: poll every five minutes.
    pub five_minutes: &'static str,
    /// Menu: poll every fifteen minutes.
    pub fifteen_minutes: &'static str,
    /// Menu: poll every hour.
    pub one_hour: &'static str,
    /// Menu: the submenu of settings.
    pub settings: &'static str,
    /// Menu: start when the user logs in.
    pub start_with_windows: &'static str,
    /// Menu: put the widget back where it started.
    pub reset_position: &'static str,
    /// Menu: show or hide the widget.
    pub show_widget: &'static str,
    /// Menu: leave the program.
    pub exit: &'static str,
}

} // verus!
