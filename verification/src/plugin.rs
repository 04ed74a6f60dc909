use vstd::prelude::*;
use vstd::string::StringExecFns;
use crate::library::seq_lemmas::lemma_filter_step;
use crate::library::Library;
use crate::media::Media;
use crate::misc::error::fails_with;
use crate::misc::error::ErrorView;
use crate::misc::tools::lowercase;
use crate::misc::tools::str_eq;
use crate::misc::tools::to_lowercase;
use crate::misc::Error;

verus! {

/// The events of a library that a plugin can listen to.
#[derive(Debug, Clone, Copy, PartialEq, Eq, Structural)]
pub enum TriggerType {
    NoTrigger,
    MediaAdd,
    MediaRemove,
    MediaModify,
    SetAdd,
    SetRemove,
    MediaAddToSet,
    MediaRemoveFromSet,
    GetMedia,
    Detailize,
    QueryMedia,
    QuerySet,
}

impl TriggerType {
    /// The event's name.
    pub open spec fn name(&self) -> Seq<char> {
        match self {
            TriggerType::NoTrigger => "none"@,
            TriggerType::MediaAdd => "media_add"@,
            TriggerType::MediaRemove => "media_remove"@,
            TriggerType::MediaModify => "media_modify"@,
            TriggerType::SetAdd => "set_add"@,
            TriggerType::SetRemove => "set_remove"@,
            TriggerType::MediaAddToSet => "media_add_to_set"@,
            TriggerType::MediaRemoveFromSet => "media_remove_from_set"@,
            TriggerType::GetMedia => "get_media"@,
            TriggerType::Detailize => "detailize"@,
            TriggerType::QueryMedia => "query_media"@,
            TriggerType::QuerySet => "query_set"@,
        }
    }

    /// The event that a lower-case name stands for; an unknown name
    /// stands for no event.
    pub open spec fn of_lowercase(name: Seq<char>) -> TriggerType {
        if name == "media_add"@ {
            TriggerType::MediaAdd
        } else if name == "media_remove"@ {
            TriggerType::MediaRemove
        } else if name == "media_modify"@ {
            TriggerType::MediaModify
        } else if name == "set_add"@ {
            TriggerType::SetAdd
        } else if name == "set_remove"@ {
            TriggerType::SetRemove
        } else if name == "media_add_to_set"@ {
            TriggerType::MediaAddToSet
        } else if name == "media_remove_from_set"@ {
            TriggerType::MediaRemoveFromSet
        } else if name == "get_media"@ {
            TriggerType::GetMedia
        } else if name == "detailize"@ {
            TriggerType::Detailize
        } else if name == "query_media"@ {
            TriggerType::QueryMedia
        } else if name == "query_set"@ {
            TriggerType::QuerySet
        } else {
            TriggerType::NoTrigger
        }
    }

    /// Whether the event is about one media item, which is then handed to
    /// the plugins.
    pub open spec fn needs_media(&self) -> bool {
        match self {
            TriggerType::MediaAdd => true,
            TriggerType::MediaRemove => true,
            TriggerType::MediaModify => true,
            TriggerType::MediaAddToSet => true,
            TriggerType::MediaRemoveFromSet => true,
            TriggerType::GetMedia => true,
            TriggerType::Detailize => true,
            _ => false,
        }
    }

    pub fn need_media(&self) -> (r: bool)
        ensures
            r == self.needs_media(),
    {
        match self {
            TriggerType::MediaAdd => true,
            TriggerType::MediaRemove => true,
            TriggerType::MediaModify => true,
            TriggerType::MediaAddToSet => true,
            TriggerType::MediaRemoveFromSet => true,
            TriggerType::GetMedia => true,
            TriggerType::Detailize => true,
            _ => false,
        }
    }

    pub fn to_string(&self) -> (r: String)
        ensures
            r@ == self.name(),
    {
        match self {
            TriggerType::NoTrigger => String::from_str("none"),
            TriggerType::MediaAdd => String::from_str("media_add"),
            TriggerType::MediaRemove => String::from_str("media_remove"),
            TriggerType::MediaModify => String::from_str("media_modify"),
            TriggerType::SetAdd => String::from_str("set_add"),
            TriggerType::SetRemove => String::from_str("set_remove"),
            TriggerType::MediaAddToSet => String::from_str("media_add_to_set"),
            TriggerType::MediaRemoveFromSet => String::from_str("media_remove_from_set"),
            TriggerType::GetMedia => String::from_str("get_media"),
            TriggerType::Detailize => String::from_str("detailize"),
            TriggerType::QueryMedia => String::from_str("query_media"),
            TriggerType::QuerySet => String::from_str("query_set"),
        }
    }

    /// The event that the lower-case name `name` stands for.
    pub fn from_lowercase(name: &str) -> (r: TriggerType)
        ensures
            r == TriggerType::of_lowercase(name@),
    {
        if str_eq(name, "media_add") {
            TriggerType::MediaAdd
        } else if str_eq(name, "media_remove") {
            TriggerType::MediaRemove
        } else if str_eq(name, "media_modify") {
            TriggerType::MediaModify
        } else if str_eq(name, "set_add") {
            TriggerType::SetAdd
        } else if str_eq(name, "set_remove") {
            TriggerType::SetRemove
        } else if str_eq(name, "media_add_to_set") {
            TriggerType::MediaAddToSet
        } else if str_eq(name, "media_remove_from_set") {
            TriggerType::MediaRemoveFromSet
        } else if str_eq(name, "get_media") {
            TriggerType::GetMedia
        } else if str_eq(name, "detailize") {
            TriggerType::Detailize
        } else if str_eq(name, "query_media") {
            TriggerType::QueryMedia
        } else if str_eq(name, "query_set") {
            TriggerType::QuerySet
        } else {
            TriggerType::NoTrigger
        }
    }

    /// Reads an event name, whatever its case.
    pub fn parse(s: &str) -> (r: TriggerType)
        ensures
            r == TriggerType::of_lowercase(lowercase(s@)),
    {
        let lower = to_lowercase(s);
        TriggerType::from_lowercase(lower.as_str())
    }
}

impl std::str::FromStr for TriggerType {
    type Err = Error;

    /// Reads an event name, whatever its case. Never fails: a name that
    /// no event has stands for no event.
    fn from_str(s: &str) -> (r: Result<TriggerType, Error>)
        ensures
            r == Ok::<TriggerType, Error>(TriggerType::of_lowercase(lowercase(s@))),
    {
        Ok(TriggerType::parse(s))
    }
}

/// Whether `action` is among `triggers`.
pub open spec fn listens_to(triggers: Seq<TriggerType>, action: TriggerType) -> bool {
    exists|i: int| 0 <= i < triggers.len() && #[trigger] triggers[i] == action
}

/// A plugin: something with a name that listens to events of a library.
/// Each hook gets the library in a well-formed state and must leave it so;
/// what a hook returns is its status, which the library passes on.
pub trait PluginTrait {
    fn name(&self) -> String;

    fn trigger(&self) -> &Vec<TriggerType>;

    fn on_trigger(&self, lib: &mut Library, media: &mut Option<Media>, trigger_type: TriggerType) -> (r:
        u32)
        requires
            old(lib).wf(),
        ensures
            final(lib).wf(),
    ;

    fn on_load(&self, lib: &mut Library) -> (r: u32)
        requires
            old(lib).wf(),
        ensures
            final(lib).wf(),
    ;

    fn on_unload(&self, lib: &mut Library) -> (r: u32)
        requires
            old(lib).wf(),
        ensures
            final(lib).wf(),
    ;
}

/// A loaded plugin, with the name and the events that it gave when it was
/// loaded.
pub struct Plugin<P: PluginTrait> {
    plugin: P,
    name: String,
    triggers: Vec<TriggerType>,
}

/// What a loaded plugin stands for.
pub struct PluginView<P> {
    pub plugin: P,
    pub name: Seq<char>,
    pub triggers: Seq<TriggerType>,
}

impl<P: PluginTrait> View for Plugin<P> {
    type V = PluginView<P>;

    closed spec fn view(&self) -> PluginView<P> {
        PluginView { plugin: self.plugin, name: self.name@, triggers: self.triggers@ }
    }
}

/// The plugins that are loaded for a library, in the order of loading.
pub struct PluginManager<P: PluginTrait> {
    plugins: Vec<Plugin<P>>,
}

/// Whether `action` is among the events in `triggers`.
pub fn is_listening(triggers: &Vec<TriggerType>, action: TriggerType) -> (r: bool)
    ensures
        r == listens_to(triggers@, action),
{
    let n: usize = triggers.len();
    let mut i: usize = 0;
    while i < n
        invariant
            n == triggers@.len(),
            i <= n,
            forall|j: int| 0 <= j < i ==> #[trigger] triggers@[j] != action,
        decreases n - i,
    {
        if triggers[i] == action {
            return true;
        }
        i += 1;
    }
    false
}

/// A copy of a list of events.
pub fn copy_triggers(triggers: &Vec<TriggerType>) -> (r: Vec<TriggerType>)
    ensures
        r@ == triggers@,
{
    let mut out: Vec<TriggerType> = Vec::new();
    let n: usize = triggers.len();
    let mut i: usize = 0;
    while i < n
        invariant
            n == triggers@.len(),
            i <= n,
            out@ == triggers@.take(i as int),
        decreases n - i,
    {
        out.push(triggers[i]);
        assert(out@ =~= triggers@.take(i + 1));
        i += 1;
    }
    assert(triggers@.take(n as int) =~= triggers@);
    out
}

/// Holds of the loaded plugins that listen to `action`.
pub open spec fn listener_of<P>(action: TriggerType) -> spec_fn(PluginView<P>) -> bool {
    |p: PluginView<P>| listens_to(p.triggers, action)
}

/// The names of the plugins among `plugins` that listen to `action`, in
/// order.
pub open spec fn listeners<P>(plugins: Seq<PluginView<P>>, action: TriggerType) -> Seq<Seq<char>> {
    plugins.filter(listener_of::<P>(action)).map_values(|p: PluginView<P>| p.name)
}

/// The names in a list of names and statuses.
pub open spec fn names_of(status: Seq<(String, u32)>) -> Seq<Seq<char>> {
    status.map_values(|s: (String, u32)| s.0@)
}

/// Whether some plugin among `plugins` has the name `name`.
pub open spec fn has_plugin<P>(plugins: Seq<PluginView<P>>, name: Seq<char>) -> bool {
    exists|i: int| 0 <= i < plugins.len() && (#[trigger] plugins[i]).name == name
}

/// Whether `i` is the position of the first plugin with the name `name`.
pub open spec fn is_first_named<P>(plugins: Seq<PluginView<P>>, name: Seq<char>, i: int) -> bool {
    &&& 0 <= i < plugins.len()
    &&& plugins[i].name == name
    &&& forall|j: int| 0 <= j < i ==> (#[trigger] plugins[j]).name != name
}

impl<P: PluginTrait> View for PluginManager<P> {
    type V = Seq<PluginView<P>>;

    closed spec fn view(&self) -> Seq<PluginView<P>> {
        self.plugins@.map_values(|p: Plugin<P>| p@)
    }
}

impl<P: PluginTrait> PluginManager<P> {
    /// A manager without plugins.
    pub fn new() -> (r: PluginManager<P>)
        ensures
            r@ == Seq::<PluginView<P>>::empty(),
    {
        let r = PluginManager { plugins: Vec::new() };
        assert(r@ =~= Seq::<PluginView<P>>::empty());
        r
    }

    /// How many plugins are loaded.
    pub fn len(&self) -> (r: usize)
        ensures
            r == self@.len(),
    {
        self.plugins.len()
    }

    /// Loads `plugin`: asks it for its name and its events, runs its load
    /// hook on the library and puts it behind the plugins loaded before.
    pub fn load_plugin(&mut self, lib: &mut Library, plugin: P) -> (r: Result<(), Error>)
        requires
            old(lib).wf(),
        ensures
            final(lib).wf(),
            r is Ok,
            final(self)@.len() == old(self)@.len() + 1,
            final(self)@.drop_last() == old(self)@,
            final(self)@.last().plugin == plugin,
    {
        let name = plugin.name();
        let triggers = copy_triggers(plugin.trigger());
        let _ = plugin.on_load(lib);
        self.plugins.push(Plugin { plugin, name, triggers });
        assert(self@.drop_last() =~= old(self)@);
        Ok(())
    }

    /// Unloads the first plugin with the name `name`: takes it out and
    /// runs its unload hook on the library. A name that no plugin has
    /// changes nothing.
    pub fn unload(&mut self, lib: &mut Library, name: &str) -> (r: Result<(), Error>)
        requires
            old(lib).wf(),
        ensures
            final(lib).wf(),
            r is Ok,
            has_plugin(old(self)@, name@) ==> exists|i: int|
                is_first_named(old(self)@, name@, i) && #[trigger] old(self)@.remove(i)
                    == final(self)@,
            !has_plugin(old(self)@, name@) ==> final(self)@ == old(self)@
                && *final(lib) == *old(lib),
    {
        let n: usize = self.plugins.len();
        let mut i: usize = 0;
        while i < n
            invariant
                n == self.plugins@.len(),
                i <= n,
                self.plugins@ == old(self).plugins@,
                self@ == old(self)@,
                n == self@.len(),
                *lib == *old(lib),
                lib.wf(),
                forall|j: int| 0 <= j < i ==> (#[trigger] old(self)@[j]).name != name@,
            decreases n - i,
        {
            let found = str_eq(self.plugins[i].name.as_str(), name);
            assert(old(self)@[i as int] == self.plugins@[i as int]@);
            if found {
                assert(is_first_named(old(self)@, name@, i as int));
                let entry = self.plugins.remove(i);
                let _ = entry.plugin.on_unload(lib);
                assert(old(self)@.remove(i as int) =~= self@);
                return Ok(());
            }
            i += 1;
        }
        Ok(())
    }

    /// Raises the event `action`: the hook of every plugin that listens to
    /// it runs, in the order of loading, on the library and on `media`.
    /// The result has the name of each plugin that ran and the status it
    /// returned. An event that is about a media item and comes without
    /// one is `NoneError`, and no hook runs.
    pub fn trigger(&self, lib: &mut Library, action: TriggerType, media: &mut Option<Media>) -> (r:
        Result<Vec<(String, u32)>, Error>)
        requires
            old(lib).wf(),
        ensures
            final(lib).wf(),
            action.needs_media() && *old(media) is None ==> fails_with(r, ErrorView::NoneError)
                && *final(lib) == *old(lib) && *final(media) == *old(media),
            !(action.needs_media() && *old(media) is None) ==> (r matches Ok(status) && names_of(
                status@,
            ) == listeners(self@, action)),
    {
        if action.need_media() && media.is_none() {
            return Err(Error::NoneError);
        }
        let mut status: Vec<(String, u32)> = Vec::new();
        let n: usize = self.plugins.len();
        let mut i: usize = 0;
        proof {
            reveal(Seq::filter);
            assert(names_of(status@) =~= listeners(self@.take(0), action));
        }
        while i < n
            invariant
                n == self.plugins@.len(),
                n == self@.len(),
                i <= n,
                lib.wf(),
                names_of(status@) == listeners(self@.take(i as int), action),
            decreases n - i,
        {
            proof {
                lemma_filter_step(self@, listener_of::<P>(action), i as int);
            }
            let ghost before = status@;
            let ghost kept = self@.take(i as int).filter(listener_of::<P>(action));
            let ghost p = self@[i as int];
            assert(p == self.plugins@[i as int]@);
            if is_listening(&self.plugins[i].triggers, action) {
                let ret: u32 = self.plugins[i].plugin.on_trigger(lib, media, action);
                let name = self.plugins[i].name.clone();
                status.push((name, ret));
                proof {
                    assert(names_of(status@) =~= names_of(before).push(p.name));
                    assert(kept.push(p).map_values(|p: PluginView<P>| p.name) =~= kept.map_values(
                        |p: PluginView<P>| p.name,
                    ).push(p.name));
                }
            }
            i += 1;
        }
        assert(self@.take(n as int) =~= self@);
        Ok(status)
    }
}

impl Library {
    /// Loads `plugin` into `plugins` for this library, as
    /// `PluginManager::load_plugin` does.
    pub fn load_plugin<P: PluginTrait>(&mut self, plugins: &mut PluginManager<P>, plugin: P) -> (r:
        Result<(), Error>)
        requires
            old(self).wf(),
        ensures
            final(self).wf(),
            r is Ok,
            final(plugins)@.len() == old(plugins)@.len() + 1,
            final(plugins)@.drop_last() == old(plugins)@,
            final(plugins)@.last().plugin == plugin,
    {
        plugins.load_plugin(self, plugin)
    }

    /// Unloads the first plugin with the name `name` from `plugins`, as
    /// `PluginManager::unload` does.
    pub fn unload<P: PluginTrait>(&mut self, plugins: &mut PluginManager<P>, name: &str) -> (r:
        Result<(), Error>)
        requires
            old(self).wf(),
        ensures
            final(self).wf(),
            r is Ok,
            has_plugin(old(plugins)@, name@) ==> exists|i: int|
                is_first_named(old(plugins)@, name@, i) && #[trigger] old(plugins)@.remove(i)
                    == final(plugins)@,
            !has_plugin(old(plugins)@, name@) ==> final(plugins)@ == old(plugins)@
                && *final(self) == *old(self),
    {
        plugins.unload(self, name)
    }

    /// Raises the event `action` on the plugins in `plugins`, as
    /// `PluginManager::trigger` does.
    pub fn trigger<P: PluginTrait>(
        &mut self,
        plugins: &PluginManager<P>,
        action: TriggerType,
        media: &mut Option<Media>,
    ) -> (r: Result<Vec<(String, u32)>, Error>)
        requires
            old(self).wf(),
        ensures
            final(self).wf(),
            action.needs_media() && *old(media) is None ==> fails_with(r, ErrorView::NoneError)
                && *final(self) == *old(self) && *final(media) == *old(media),
            !(action.needs_media() && *old(media) is None) ==> (r matches Ok(status) && names_of(
                status@,
            ) == listeners(plugins@, action)),
    {
        plugins.trigger(self, action, media)
    }
}

} // verus!
