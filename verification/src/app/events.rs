//! What the state does when background work reports back.
use vstd::prelude::*;
use crate::model::{Article, Feed};
use crate::text::{concat_str, decimal, push_decimal};
use super::nav::{one_effect, sat_sub, two_effects};
use super::{toast_text, AddForm, App, Effect, ExportForm, Popups, SyncState};

verus! {

/// One fetch fewer is pending; syncing stops when none is left.
pub open spec fn fetch_done(s: SyncState) -> SyncState {
    let p = sat_sub(s.pending_fetches as int, 1);
    SyncState { pending_fetches: p, is_syncing: if p == 0 { false } else { s.is_syncing }, ..s }
}

impl App {
    /// One more tick of the clock, counted for the spinner.
    pub fn tick(&mut self)
        ensures
            *final(self) == (App {
                sync: SyncState { tick_count: old(self).sync.tick_count.wrapping_add(1), ..old(self).sync },
                ..*old(self)
            }),
    {
        self.sync.tick_count = self.sync.tick_count.wrapping_add(1);
    }

    fn finish_fetch(&mut self)
        ensures
            *final(self) == (App { sync: fetch_done(old(self).sync), ..*old(self) }),
    {
        self.sync.pending_fetches = self.sync.pending_fetches.saturating_sub(1);
        if self.sync.pending_fetches == 0 {
            self.sync.is_syncing = false;
        }
    }

    /// A background refresh of one feed ended: a failure is reported in a
    /// toast, a success reloads the data.
    pub fn feed_refresh_finished(&mut self, success: bool, error: Option<String>) -> (e: Vec<Effect>)
        ensures
            *final(self) == (App { sync: fetch_done(old(self).sync), ..*old(self) }),
            e@.len() == (if error is Some { 1int } else { 0 }) + (if success { 1int } else { 0 }),
            error matches Some(m) ==> toast_text(e@[0], "Feed sync notice: "@ + m@),
            success ==> e@.last() == Effect::ReloadData,
    {
        self.finish_fetch();
        let mut e: Vec<Effect> = Vec::new();
        if let Some(m) = error {
            let msg = concat_str("Feed sync notice: ", m.as_str());
            proof {
                reveal_strlit("Feed sync notice: ");
            }
            e.push(Effect::Toast(msg));
        }
        if success {
            e.push(Effect::ReloadData);
        }
        e
    }

    /// Adding a feed ended: a found feed is stored with its articles, the
    /// popup closes and the data reloads; otherwise the popup shows the error.
    pub fn add_feed_finished(&mut self, feed: Option<Feed>, articles: Vec<Article>, error: Option<String>) -> (e: Vec<Effect>)
        ensures
            ({
                let a = App {
                    add_form: AddForm { modal_is_loading: false, ..old(self).add_form },
                    sync: fetch_done(old(self).sync),
                    ..*old(self)
                };
                match feed {
                    Some(f) => {
                        &&& *final(self) == App { popups: Popups { show_add_modal: false, ..a.popups }, ..a }
                        &&& e@.len() == 3
                        &&& e@[0] == Effect::StoreFeed { feed: f, articles }
                        &&& toast_text(
                            e@[1],
                            "Added feed: "@ + f.title@ + " ("@ + decimal(articles@.len()) + " articles)"@,
                        )
                        &&& e@[2] == Effect::ReloadData
                    },
                    None => {
                        &&& e@.len() == 0
                        &&& *final(self) == match error {
                            Some(m) => App { add_form: AddForm { modal_error: Some(m), ..a.add_form }, ..a },
                            None => a,
                        }
                    },
                }
            }),
    {
        self.add_form.modal_is_loading = false;
        self.finish_fetch();
        match feed {
            Some(f) => {
                self.popups.show_add_modal = false;
                let mut msg = concat_str("Added feed: ", f.title.as_str());
                msg = concat_str(msg.as_str(), " (");
                push_decimal(&mut msg, articles.len() as u64);
                let msg = concat_str(msg.as_str(), " articles)");
                proof {
                    reveal_strlit("Added feed: ");
                    reveal_strlit(" (");
                    reveal_strlit(" articles)");
                }
                let e = vec![Effect::StoreFeed { feed: f, articles }, Effect::Toast(msg), Effect::ReloadData];
                e
            },
            None => {
                if let Some(m) = error {
                    self.add_form.modal_error = Some(m);
                }
                Vec::new()
            },
        }
    }

    /// Importing an OPML file ended with the number of feeds stored, or an
    /// error for the popup.
    pub fn opml_import_finished(&mut self, outcome: Result<u64, String>) -> (e: Vec<Effect>)
        ensures
            match outcome {
                Ok(n) => {
                    &&& *final(self) == App { popups: Popups { show_add_modal: false, ..old(self).popups }, ..*old(self) }
                    &&& e@.len() == 3
                    &&& e@[0] == Effect::ReloadData
                    &&& e@[1] == Effect::RefreshAll
                    &&& toast_text(e@[2], "Successfully imported "@ + decimal(n as nat) + " feeds from OPML"@)
                },
                Err(m) => {
                    &&& *final(self) == App { add_form: AddForm { modal_error: Some(m), ..old(self).add_form }, ..*old(self) }
                    &&& e@.len() == 0
                },
            },
    {
        match outcome {
            Ok(n) => {
                self.popups.show_add_modal = false;
                let mut msg = "Successfully imported ".to_owned();
                push_decimal(&mut msg, n);
                let msg = concat_str(msg.as_str(), " feeds from OPML");
                proof {
                    reveal_strlit("Successfully imported ");
                    reveal_strlit(" feeds from OPML");
                }
                vec![Effect::ReloadData, Effect::RefreshAll, Effect::Toast(msg)]
            },
            Err(m) => {
                self.add_form.modal_error = Some(m);
                Vec::new()
            },
        }
    }

    /// Writing the OPML export to `path` ended: success closes the popup with
    /// a toast counting the feeds; a failure message is shown in the popup.
    pub fn export_finished(&mut self, path: &str, outcome: Result<(), String>) -> (e: Vec<Effect>)
        ensures
            match outcome {
                Ok(_) => {
                    &&& *final(self) == App { popups: Popups { show_export_modal: false, ..old(self).popups }, ..*old(self) }
                    &&& e@.len() == 1
                    &&& toast_text(
                        e@[0],
                        "Exported "@ + decimal(old(self).library.feeds@.len()) + " feeds to "@ + path@,
                    )
                },
                Err(m) => {
                    &&& *final(self) == App {
                        export_form: ExportForm { modal_export_status: Some(m), ..old(self).export_form },
                        ..*old(self)
                    }
                    &&& e@.len() == 0
                },
            },
    {
        match outcome {
            Ok(_) => {
                self.popups.show_export_modal = false;
                let mut msg = "Exported ".to_owned();
                push_decimal(&mut msg, self.library.feeds.len() as u64);
                let msg = concat_str(msg.as_str(), " feeds to ");
                let msg = concat_str(msg.as_str(), path);
                proof {
                    reveal_strlit("Exported ");
                    reveal_strlit(" feeds to ");
                }
                one_effect(Effect::Toast(msg))
            },
            Err(m) => {
                self.export_form.modal_export_status = Some(m);
                Vec::new()
            },
        }
    }

    /// Syncing ran too long: it is considered over, and the data reloads.
    pub fn sync_timed_out(&mut self) -> (e: Vec<Effect>)
        ensures
            if old(self).sync.is_syncing {
                &&& *final(self) == (App {
                    sync: SyncState { is_syncing: false, pending_fetches: 0, ..old(self).sync },
                    ..*old(self)
                })
                &&& e@.len() == 2
                &&& toast_text(e@[0], "Feed sync completed."@)
                &&& e@[1] == Effect::ReloadData
            } else {
                *final(self) == *old(self) && e@.len() == 0
            },
    {
        if !self.sync.is_syncing {
            return Vec::new();
        }
        self.sync.is_syncing = false;
        self.sync.pending_fetches = 0;
        proof {
            reveal_strlit("Feed sync completed.");
        }
        two_effects(Effect::Toast("Feed sync completed.".to_owned()), Effect::ReloadData)
    }
}

/// Whether a sync that has run this many whole seconds is overdue: past
/// fifteen seconds it is considered over.
pub fn sync_expired(elapsed_secs: u64) -> (r: bool)
    ensures
        r == (elapsed_secs > 15),
{
    elapsed_secs > 15
}

/// Whether a toast shown this many whole seconds ago is dismissed: it stays
/// for four seconds.
pub fn toast_expired(elapsed_secs: u64) -> (r: bool)
    ensures
        r == (elapsed_secs > 4),
{
    elapsed_secs > 4
}

} // verus!
