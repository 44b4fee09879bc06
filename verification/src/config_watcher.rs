//! Watching the configuration files: which files are watched, and the
//! events that report their changes.
use vstd::prelude::*;
use std::time::Instant;
use crate::probe::{path_join, joined_path, path_exists};
use crate::xdg::entry::strs_view;

verus! {

/// A configuration file that is watched for changes.
#[derive(Debug, Clone, Copy, PartialEq, Eq, Structural)]
pub enum WatchedFile {
    RcXml,
    MenuXml,
    ThemeRc,
    Autostart,
}

/// The file name of a watched file.
pub open spec fn watched_file_name(f: WatchedFile) -> Seq<char> {
    match f {
        WatchedFile::RcXml => "rc.xml"@,
        WatchedFile::MenuXml => "menu.xml"@,
        WatchedFile::ThemeRc => "themerc"@,
        WatchedFile::Autostart => "autostart"@,
    }
}

impl WatchedFile {
    /// The file name of the watched file.
    pub fn name(self) -> (s: &'static str)
        ensures
            s@ == watched_file_name(self),
    {
        match self {
            WatchedFile::RcXml => "rc.xml",
            WatchedFile::MenuXml => "menu.xml",
            WatchedFile::ThemeRc => "themerc",
            WatchedFile::Autostart => "autostart",
        }
    }
}

/// How a watched file changed.
#[derive(Debug, Clone, Copy, PartialEq, Eq, Structural)]
pub enum ConfigChangeKind {
    Modified,
    Created,
    Deleted,
}

/// A change of a watched file.
#[derive(Debug)]
pub struct ConfigChangeEvent {
    pub file: WatchedFile,
    pub path: String,
    pub kind: ConfigChangeKind,
    pub timestamp: Instant,
}

/// The files to watch, given the user's configuration directory (where it
/// is known; `/etc/xdg` otherwise): `rc.xml`, `menu.xml`, `themerc` and
/// `autostart` in its `labwc` directory.
pub fn config_watch_targets(config_home: Option<&str>) -> (r: Vec<(String, WatchedFile)>)
    ensures
        ({
            let dir = joined_path(
                match config_home {
                    Some(h) => h@,
                    None => "/etc/xdg"@,
                },
                "labwc"@,
            );
            r@.len() == 4 && r@[0].0@ == joined_path(dir, "rc.xml"@) && r@[0].1 == WatchedFile::RcXml
                && r@[1].0@ == joined_path(dir, "menu.xml"@) && r@[1].1 == WatchedFile::MenuXml
                && r@[2].0@ == joined_path(dir, "themerc"@) && r@[2].1 == WatchedFile::ThemeRc
                && r@[3].0@ == joined_path(dir, "autostart"@) && r@[3].1 == WatchedFile::Autostart
        }),
{
    let home = match config_home {
        Some(h) => h,
        None => "/etc/xdg",
    };
    let dir = path_join(home, "labwc");
    let mut r: Vec<(String, WatchedFile)> = Vec::new();
    r.push((path_join(dir.as_str(), WatchedFile::RcXml.name()), WatchedFile::RcXml));
    r.push((path_join(dir.as_str(), WatchedFile::MenuXml.name()), WatchedFile::MenuXml));
    r.push((path_join(dir.as_str(), WatchedFile::ThemeRc.name()), WatchedFile::ThemeRc));
    r.push((path_join(dir.as_str(), WatchedFile::Autostart.name()), WatchedFile::Autostart));
    r
}

/// `added` is made of some of `targets`, in their order.
pub open spec fn picked(targets: Seq<Seq<char>>, added: Seq<Seq<char>>) -> bool
    decreases targets.len(),
{
    if targets.len() == 0 {
        added.len() == 0
    } else {
        picked(targets.drop_first(), added) || (added.len() > 0 && added[0] == targets[0] && picked(
            targets.drop_first(),
            added.drop_first(),
        ))
    }
}

/// The configuration files being watched, and whether watching was started.
pub struct ConfigWatcher {
    pub running: bool,
    pub watched_paths: Vec<String>,
}

impl ConfigWatcher {
    /// Nothing watched, not running.
    pub fn new() -> (w: ConfigWatcher)
        ensures
            !w.running,
            w.watched_paths@.len() == 0,
    {
        ConfigWatcher { running: false, watched_paths: Vec::new() }
    }

    /// Watch `path`, the file `file`.
    pub fn register_path(&mut self, path: &str, file: WatchedFile)
        ensures
            strs_view(final(self).watched_paths@) == strs_view(old(self).watched_paths@).push(path@),
            final(self).running == old(self).running,
    {
        self.watched_paths.push(path.to_owned());
        assert(strs_view(self.watched_paths@) =~= strs_view(old(self).watched_paths@).push(path@));
    }

    /// Start watching: where paths are registered, the watcher runs and the
    /// paths to watch are returned; with none, nothing changes.
    pub fn start_watching(&mut self) -> (r: Option<Vec<String>>)
        ensures
            final(self).watched_paths == old(self).watched_paths,
            old(self).watched_paths@.len() == 0 ==> r is None && final(self).running == old(self).running,
            old(self).watched_paths@.len() > 0 ==> final(self).running && (r matches Some(v) && strs_view(
                v@,
            ) == strs_view(old(self).watched_paths@)),
    {
        if self.watched_paths.len() == 0 {
            return None;
        }
        self.running = true;
        let mut v: Vec<String> = Vec::new();
        let mut i: usize = 0;
        while i < self.watched_paths.len()
            invariant
                i <= self.watched_paths@.len(),
                v@.len() == i,
                forall|j: int| 0 <= j < i ==> (#[trigger] v@[j])@ == self.watched_paths@[j]@,
            decreases self.watched_paths.len() - i,
        {
            let c = self.watched_paths[i].clone();
            v.push(c);
            i = i + 1;
        }
        assert(strs_view(v@) =~= strs_view(self.watched_paths@));
        Some(v)
    }

    /// Stop watching.
    pub fn stop(&mut self)
        ensures
            !final(self).running,
            final(self).watched_paths == old(self).watched_paths,
    {
        self.running = false;
    }

    /// Watch those of the configuration files (`config_watch_targets`) that
    /// exist or whose `labwc` directory exists, then start watching. What
    /// exists depends on the disk: the paths added are some of the targets,
    /// in order.
    pub fn watch_all_configs(&mut self, config_home: Option<&str>) -> (r: Option<Vec<String>>)
        ensures
            ({
                let dir = joined_path(
                    match config_home {
                        Some(h) => h@,
                        None => "/etc/xdg"@,
                    },
                    "labwc"@,
                );
                let targets = seq![
                    joined_path(dir, "rc.xml"@),
                    joined_path(dir, "menu.xml"@),
                    joined_path(dir, "themerc"@),
                    joined_path(dir, "autostart"@),
                ];
                let before = strs_view(old(self).watched_paths@);
                let after = strs_view(final(self).watched_paths@);
                &&& after.len() >= before.len()
                &&& after.take(before.len() as int) == before
                &&& picked(targets, after.skip(before.len() as int))
            }),
            final(self).watched_paths@.len() == 0 ==> r is None && final(self).running == old(self).running,
            final(self).watched_paths@.len() > 0 ==> final(self).running && (r matches Some(v)
                && strs_view(v@) == strs_view(final(self).watched_paths@)),
    {
        let targets = config_watch_targets(config_home);
        let home = match config_home {
            Some(h) => h,
            None => "/etc/xdg",
        };
        let dir = path_join(home, "labwc");
        let dir_exists = path_exists(dir.as_str());
        let ghost before = strs_view(self.watched_paths@);
        let ghost tv = seq![targets@[0].0@, targets@[1].0@, targets@[2].0@, targets@[3].0@];
        let mut i: usize = 0;
        assert(before.take(before.len() as int) =~= before);
        assert(strs_view(self.watched_paths@).skip(before.len() as int) =~= Seq::<Seq<char>>::empty());
        assert(tv.skip(0) =~= tv);
        assert forall|rest: Seq<Seq<char>>| picked(tv.skip(0), rest) implies #[trigger] picked(
            tv,
            strs_view(self.watched_paths@).skip(before.len() as int) + rest,
        ) by {
            assert(strs_view(self.watched_paths@).skip(before.len() as int) + rest =~= rest);
        }
        while i < 4
            invariant
                i <= 4,
                targets@.len() == 4,
                self.running == old(self).running,
                tv == seq![targets@[0].0@, targets@[1].0@, targets@[2].0@, targets@[3].0@],
                strs_view(self.watched_paths@).len() >= before.len(),
                strs_view(self.watched_paths@).take(before.len() as int) == before,
                forall|rest: Seq<Seq<char>>|
                    picked(tv.skip(i as int), rest) ==> #[trigger] picked(
                        tv,
                        strs_view(self.watched_paths@).skip(before.len() as int) + rest,
                    ),
            decreases 4 - i,
        {
            let ghost added = strs_view(self.watched_paths@).skip(before.len() as int);
            let (path, file) = (&targets[i].0, targets[i].1);
            assert(tv[i as int] == path@);
            assert(tv.skip(i as int).drop_first() =~= tv.skip(i + 1));
            if path_exists(path.as_str()) || dir_exists {
                self.register_path(path.as_str(), file);
                proof {
                    let now = strs_view(self.watched_paths@);
                    assert(now.take(before.len() as int) =~= before);
                    assert(now.skip(before.len() as int) =~= added.push(path@));
                    assert forall|rest: Seq<Seq<char>>| picked(tv.skip(i + 1), rest) implies #[trigger] picked(
                        tv,
                        now.skip(before.len() as int) + rest,
                    ) by {
                        assert(picked(tv.skip(i as int), seq![path@] + rest)) by {
                            assert((seq![path@] + rest)[0] == tv.skip(i as int)[0]);
                            assert((seq![path@] + rest).drop_first() =~= rest);
                        }
                        assert(added + (seq![path@] + rest) =~= added.push(path@) + rest);
                    }
                }
            } else {
                proof {
                    assert forall|rest: Seq<Seq<char>>| picked(tv.skip(i + 1), rest) implies #[trigger] picked(
                        tv,
                        strs_view(self.watched_paths@).skip(before.len() as int) + rest,
                    ) by {
                        assert(picked(tv.skip(i as int), rest));
                    }
                }
            }
            i = i + 1;
        }
        proof {
            assert(tv.skip(4) =~= Seq::<Seq<char>>::empty());
            assert(picked(tv.skip(4), Seq::<Seq<char>>::empty()));
            let added = strs_view(self.watched_paths@).skip(before.len() as int);
            assert(added + Seq::<Seq<char>>::empty() =~= added);
        }
        self.start_watching()
    }
}

impl Default for ConfigWatcher {
    fn default() -> (w: ConfigWatcher)
        ensures
            !w.running,
            w.watched_paths@.len() == 0,
    {
        ConfigWatcher::new()
    }
}

} // verus!
