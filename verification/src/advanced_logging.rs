use vstd::prelude::*;

use hashbrown::HashMap;

verus! {

/// Which logger currently stands behind a global log sink: the inert
/// placeholder, or the initialized multi-channel log.
pub enum LogLogic {
    Uninit,
    Init,
}

/// A sink that collects log lines into named channels.
pub trait Logger: Sized {
    /// The pending lines of each channel, keyed by channel name.
    spec fn channels_model(&self) -> Map<Seq<char>, Seq<Seq<char>>>;

    /// Whether this logger accepts channels and lines at all.
    spec fn is_ready(&self) -> bool;

    /// The logger's internal invariant; it holds from construction on.
    spec fn inv(&self) -> bool;

    /// Registers a channel (resetting it if it already exists); reports
    /// whether the logger took it.
    fn push_new_channel(&mut self, channel: &'static str) -> (r: bool)
        requires
            old(self).inv(),
        ensures
            final(self).inv(),
            r == old(self).is_ready(),
            final(self).is_ready() == old(self).is_ready(),
            r ==> final(self).channels_model() == old(self).channels_model().insert(
                channel@,
                Seq::empty(),
            ),
            !r ==> final(self).channels_model() == old(self).channels_model(),
    ;

    /// Appends a line to a channel; reports whether the channel existed.
    fn write_to_channel(&mut self, channel: &'static str, data: String) -> (r: Option<()>)
        requires
            old(self).inv(),
        ensures
            final(self).inv(),
            final(self).is_ready() == old(self).is_ready(),
            r is Some <==> old(self).is_ready() && old(self).channels_model().dom().contains(
                channel@,
            ),
            r is Some ==> final(self).channels_model() == old(self).channels_model().insert(
                channel@,
                old(self).channels_model()[channel@].push(data@),
            ),
            r is None ==> final(self).channels_model() == old(self).channels_model(),
    ;

    /// Empties every channel, keeping the channel set; reports whether the
    /// logger was ready.
    fn flush_all(&mut self) -> (r: bool)
        requires
            old(self).inv(),
        ensures
            final(self).inv(),
            r == old(self).is_ready(),
            final(self).is_ready() == old(self).is_ready(),
            final(self).channels_model().dom() == old(self).channels_model().dom(),
            r ==> forall|k: Seq<char>| #[trigger]
                final(self).channels_model().dom().contains(k) ==> final(self).channels_model()[k]
                    == Seq::<Seq<char>>::empty(),
            !r ==> final(self).channels_model() == old(self).channels_model(),
    ;
}

/// The placeholder that stands behind the log sink before initialization:
/// it holds no channels and rejects every operation.
pub struct UninitLogger {}

impl Logger for UninitLogger {
    open spec fn channels_model(&self) -> Map<Seq<char>, Seq<Seq<char>>> {
        Map::empty()
    }

    open spec fn is_ready(&self) -> bool {
        false
    }

    open spec fn inv(&self) -> bool {
        true
    }

    fn push_new_channel(&mut self, channel: &'static str) -> (r: bool) {
        false
    }

    fn write_to_channel(&mut self, channel: &'static str, data: String) -> (r: Option<()>) {
        None
    }

    fn flush_all(&mut self) -> (r: bool) {
        false
    }
}

/// A name-keyed store of pending log lines. The hash map lives behind a
/// trusted boundary; its contents are modeled by [`channel_map_model`].
#[verifier::external_body]
pub struct ChannelMap {
    map: HashMap<&'static str, Vec<String>>,
}

/// What a [`ChannelMap`] holds: each channel's pending lines, keyed by the
/// channel's name.
pub uninterp spec fn channel_map_model(m: ChannelMap) -> Map<Seq<char>, Seq<Seq<char>>>;

/// A channel store with nothing in it.
pub open spec fn empty_channels() -> Map<Seq<char>, Seq<Seq<char>>> {
    Map::empty()
}

/// The lines of a channel as mathematical sequences.
pub open spec fn lines_view(lines: Vec<String>) -> Seq<Seq<char>> {
    lines@.map_values(|s: String| s@)
}

impl ChannelMap {
    /// Relies on hashbrown's `HashMap::new`: a newly created map is empty.
    #[verifier::external_body]
    pub fn new() -> (r: ChannelMap)
        ensures
            channel_map_model(r) == empty_channels(),
    {
        ChannelMap { map: HashMap::new() }
    }

    /// Relies on hashbrown's `HashMap::insert`: after the call the key maps
    /// to the given value and every other key is unchanged.
    #[verifier::external_body]
    pub fn insert(&mut self, channel: &'static str, lines: Vec<String>)
        ensures
            channel_map_model(*final(self)) == channel_map_model(*old(self)).insert(
                channel@,
                lines_view(lines),
            ),
    {
        self.map.insert(channel, lines);
    }

    /// Relies on hashbrown's `HashMap::remove`: takes the key's value out of
    /// the map when present, leaving every other key unchanged.
    #[verifier::external_body]
    pub fn take(&mut self, channel: &'static str) -> (r: Option<Vec<String>>)
        ensures
            match r {
                Some(lines) => channel_map_model(*old(self)).dom().contains(channel@) && lines_view(
                    lines,
                ) == channel_map_model(*old(self))[channel@] && channel_map_model(*final(self))
                    == channel_map_model(*old(self)).remove(channel@),
                None => !channel_map_model(*old(self)).dom().contains(channel@)
                    && channel_map_model(*final(self)) == channel_map_model(*old(self)),
            },
    {
        self.map.remove(channel)
    }

    /// Relies on hashbrown's `HashMap::get`: the key's value when present.
    #[verifier::external_body]
    pub fn get(&self, channel: &'static str) -> (r: Option<&Vec<String>>)
        ensures
            match r {
                Some(lines) => channel_map_model(*self).dom().contains(channel@) && lines_view(
                    *lines,
                ) == channel_map_model(*self)[channel@],
                None => !channel_map_model(*self).dom().contains(channel@),
            },
    {
        self.map.get(channel)
    }
}

/// The initialized multi-channel log: pending lines per channel, and the
/// list of registered channel names.
pub struct AdvancedLog {
    pub channels: ChannelMap,
    pub channel_list: Vec<&'static str>,
}

impl AdvancedLog {
    /// A log with no channels.
    pub fn new() -> (r: AdvancedLog)
        ensures
            r.inv(),
            r.is_ready(),
            r.channels_model() == empty_channels(),
    {
        AdvancedLog { channels: ChannelMap::new(), channel_list: Vec::new() }
    }

    /// The pending lines of a channel, or nothing when the channel was
    /// never registered.
    pub fn read_channel(&self, channel: &'static str) -> (r: Option<&Vec<String>>)
        ensures
            match r {
                Some(lines) => self.channels_model().dom().contains(channel@) && lines_view(*lines)
                    == self.channels_model()[channel@],
                None => !self.channels_model().dom().contains(channel@),
            },
    {
        self.channels.get(channel)
    }
}

impl Logger for AdvancedLog {
    open spec fn channels_model(&self) -> Map<Seq<char>, Seq<Seq<char>>> {
        channel_map_model(self.channels)
    }

    open spec fn is_ready(&self) -> bool {
        true
    }

    /// Every registered channel's name is in the list, so that a flush
    /// reaches all of them.
    open spec fn inv(&self) -> bool {
        forall|k: Seq<char>| #[trigger]
            channel_map_model(self.channels).dom().contains(k) ==> exists|j: int|
                0 <= j < self.channel_list@.len() && self.channel_list@[j]@ == k
    }

    fn push_new_channel(&mut self, channel: &'static str) -> (r: bool) {
        self.channel_list.push(channel);
        let fresh: Vec<String> = Vec::new();
        proof {
            assert(lines_view(fresh) =~= Seq::<Seq<char>>::empty());
        }
        self.channels.insert(channel, fresh);
        proof {
            let m = channel_map_model(self.channels);
            assert forall|k: Seq<char>| #[trigger] m.dom().contains(k) implies exists|j: int|
                0 <= j < self.channel_list@.len() && self.channel_list@[j]@ == k by {
                if k == channel@ {
                    let last = self.channel_list@.len() - 1;
                    assert(self.channel_list@[last]@ == k);
                } else {
                    let j = choose|j: int|
                        0 <= j < old(self).channel_list@.len() && old(self).channel_list@[j]@ == k;
                    assert(self.channel_list@[j]@ == k);
                }
            }
        }
        true
    }

    fn write_to_channel(&mut self, channel: &'static str, data: String) -> (r: Option<()>) {
        let ghost before = old(self).channels_model();
        match self.channels.take(channel) {
            Some(mut lines) => {
                lines.push(data);
                let ghost lv = lines_view(lines);
                proof {
                    assert(lv =~= before[channel@].push(data@));
                }
                self.channels.insert(channel, lines);
                proof {
                    assert(channel_map_model(self.channels) =~= before.insert(
                        channel@,
                        before[channel@].push(data@),
                    ));
                    assert(self.channel_list@ == old(self).channel_list@);
                    assert forall|k: Seq<char>| #[trigger]
                        channel_map_model(self.channels).dom().contains(k) implies exists|j: int|
                        0 <= j < self.channel_list@.len() && self.channel_list@[j]@ == k by {
                        assert(channel_map_model(old(self).channels).dom().contains(k));
                        let j = choose|j: int|
                            0 <= j < old(self).channel_list@.len() && old(self).channel_list@[j]@
                                == k;
                        assert(self.channel_list@[j]@ == k);
                    }
                }
                Some(())
            },
            None => {
                proof {
                    assert forall|k: Seq<char>| #[trigger]
                        channel_map_model(self.channels).dom().contains(k) implies exists|j: int|
                        0 <= j < self.channel_list@.len() && self.channel_list@[j]@ == k by {
                        assert(channel_map_model(old(self).channels).dom().contains(k));
                        let j = choose|j: int|
                            0 <= j < old(self).channel_list@.len() && old(self).channel_list@[j]@
                                == k;
                        assert(self.channel_list@[j]@ == k);
                    }
                }
                None
            },
        }
    }

    fn flush_all(&mut self) -> (r: bool) {
        let ghost before = old(self).channels_model();
        let mut i: usize = 0;
        while i < self.channel_list.len()
            invariant
                old(self).inv(),
                i <= self.channel_list@.len(),
                self.channel_list@ == old(self).channel_list@,
                channel_map_model(self.channels).dom() =~= before.dom(),
                forall|k: Seq<char>| #[trigger]
                    channel_map_model(self.channels).dom().contains(k) ==> (
                    channel_map_model(self.channels)[k] == Seq::<Seq<char>>::empty() || (exists|
                        j: int,
                    |
                        i as int <= j < self.channel_list@.len() && self.channel_list@[j]@ == k)),
            decreases self.channel_list@.len() - i,
        {
            let name = self.channel_list[i];
            let ghost mid = channel_map_model(self.channels);
            match self.channels.take(name) {
                Some(_) => {
                    let fresh: Vec<String> = Vec::new();
                    proof {
                        assert(lines_view(fresh) =~= Seq::<Seq<char>>::empty());
                    }
                    self.channels.insert(name, fresh);
                    proof {
                        assert(channel_map_model(self.channels) =~= mid.remove(name@).insert(
                            name@,
                            Seq::empty(),
                        ));
                    }
                },
                None => {},
            }
            proof {
                let m = channel_map_model(self.channels);
                assert(m.dom() =~= before.dom());
                assert forall|k: Seq<char>| #[trigger] m.dom().contains(k) implies (m[k]
                    == Seq::<Seq<char>>::empty() || (exists|j: int|
                    i as int + 1 <= j < self.channel_list@.len() && self.channel_list@[j]@ == k)) by {
                    if k == name@ {
                    } else if mid[k] == Seq::<Seq<char>>::empty() {
                    } else {
                        let j = choose|j: int|
                            i as int <= j < self.channel_list@.len() && self.channel_list@[j]@ == k;
                        assert(j != i as int);
                    }
                }
            }
            i = i + 1;
        }
        proof {
            assert forall|k: Seq<char>| #[trigger]
                channel_map_model(self.channels).dom().contains(k) implies channel_map_model(
                self.channels,
            )[k] == Seq::<Seq<char>>::empty() by {}
            assert forall|k: Seq<char>| #[trigger]
                channel_map_model(self.channels).dom().contains(k) implies exists|j: int|
                0 <= j < self.channel_list@.len() && self.channel_list@[j]@ == k by {
                assert(before.dom().contains(k));
            }
        }
        true
    }
}

} // verus!
