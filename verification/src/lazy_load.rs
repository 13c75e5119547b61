//! Resources that Godot loads in the background when they are first shown.

use crate::text::same_text;
use vstd::prelude::*;
use vstd::string::*;

verus! {

/// How far Godot has come with a load.
#[derive(Clone, Copy, Debug, PartialEq, Eq, Structural)]
pub enum ThreadLoadStatus {
    /// There is no such load.
    InvalidResource,
    InProgress,
    Failed,
    Loaded,
}

/// What is to be done to get at the resource.
#[derive(Clone, Copy, Debug, PartialEq, Eq, Structural)]
pub enum GetStep {
    /// The token has it.
    Ready,
    /// The load has to be asked for first.
    Request,
    /// It is taken from Godot.
    Take,
    /// There is none.
    NoResource,
}

/// What is to be done to get at a resource.
pub open spec fn step_to_get(there: bool, failed: bool, status: ThreadLoadStatus) -> GetStep {
    if there {
        GetStep::Ready
    } else if failed {
        GetStep::NoResource
    } else if status == ThreadLoadStatus::InvalidResource {
        GetStep::Request
    } else {
        GetStep::Take
    }
}

/// The path that a resource is to remember which was loaded from another path than its own.
pub open spec fn remembered(own: Option<Seq<char>>, path: Seq<char>) -> Option<Seq<char>> {
    if own == Some(path) {
        None
    } else {
        own
    }
}

/// A resource that is loaded when it is shown. Whether the resource that the token has is still
/// valid is Godot's to say.
pub struct LazyLoadToken<R> {
    original_path: Option<String>,
    path: String,
    resource: Option<R>,
    failed: bool,
}

impl<R> LazyLoadToken<R> {
    /// The path that is loaded.
    pub closed spec fn load_path(&self) -> Seq<char> {
        self.path@
    }

    /// The resource's own path, where it is another.
    pub closed spec fn own_path(&self) -> Option<Seq<char>> {
        match self.original_path {
            Some(p) => Some(p@),
            None => None,
        }
    }

    /// The resource, once it is loaded.
    pub closed spec fn loaded(&self) -> Option<R> {
        self.resource
    }

    /// The load failed.
    pub closed spec fn has_failed(&self) -> bool {
        self.failed
    }

    /// The token is done: the load failed, or it has a resource that is still valid.
    pub open spec fn settled(&self, valid: bool) -> bool {
        self.has_failed() || (self.loaded() is Some && valid)
    }

    /// A token for the resource at a path.
    pub fn new(path: String, original_path: Option<String>) -> (r: LazyLoadToken<R>)
        ensures
            r.load_path() == path@,
            r.own_path() == (match original_path {
                Some(p) => Some(p@),
                None => None,
            }),
            r.loaded() is None,
            !r.has_failed(),
    {
        LazyLoadToken { original_path, path, resource: None, failed: false }
    }

    /// Whether the load was started. `valid` says whether the resource that the token has is still
    /// valid, `status` how far Godot has come.
    pub fn is_started(&self, valid: bool, status: ThreadLoadStatus) -> (r: bool)
        ensures
            r == (self.settled(valid) || status != ThreadLoadStatus::InvalidResource),
    {
        if self.failed || (self.resource.is_some() && valid) {
            return true;
        }
        status != ThreadLoadStatus::InvalidResource
    }

    /// Whether the load came to an end.
    pub fn is_load_finished(&self, valid: bool, status: ThreadLoadStatus) -> (r: bool)
        ensures
            r == (self.settled(valid) || status == ThreadLoadStatus::Loaded || status
                == ThreadLoadStatus::Failed),
    {
        if self.failed || (self.resource.is_some() && valid) {
            return true;
        }
        status == ThreadLoadStatus::Loaded || status == ThreadLoadStatus::Failed
    }

    /// Notes whether Godot took up the load.
    pub fn start_load(&mut self, accepted: bool)
        ensures
            final(self).has_failed() == (old(self).has_failed() || !accepted),
            final(self).loaded() == old(self).loaded(),
            final(self).load_path() == old(self).load_path(),
            final(self).own_path() == old(self).own_path(),
    {
        if !accepted {
            self.failed = true;
        }
    }

    /// What is to be done to get at the resource. A load that is not asked for yet is asked for
    /// first, and then the step is asked for again.
    pub fn get_resource(&self, valid: bool, status: ThreadLoadStatus) -> (r: GetStep)
        ensures
            r == step_to_get(self.loaded() is Some && valid, self.has_failed(), status),
    {
        if self.resource.is_some() && valid {
            return GetStep::Ready;
        }
        if self.failed {
            return GetStep::NoResource;
        }
        if !self.is_started(valid, status) {
            return GetStep::Request;
        }
        GetStep::Take
    }

    /// What is to be done once the load was asked for.
    pub fn after_request(&self) -> (r: GetStep)
        ensures
            r == (if self.has_failed() {
                GetStep::NoResource
            } else {
                GetStep::Take
            }),
    {
        if self.failed {
            GetStep::NoResource
        } else {
            GetStep::Take
        }
    }

    /// Takes the resource that Godot loaded, with the path that it has there; nothing is there
    /// where the load failed, and the token keeps what it has. The path that the resource is to
    /// remember, where it has another.
    pub fn take_loaded(&mut self, result: Option<(R, String)>) -> (r: Option<String>)
        ensures
            final(self).load_path() == old(self).load_path(),
            final(self).own_path() == old(self).own_path(),
            match result {
                Some((resource, path)) => {
                    &&& final(self).loaded() == Some(resource)
                    &&& final(self).has_failed() == old(self).has_failed()
                    &&& (match r {
                        Some(p) => Some(p@),
                        None => None,
                    }) == remembered(old(self).own_path(), path@)
                },
                None => final(self).loaded() == old(self).loaded() && final(self).has_failed()
                    && r is None,
            },
    {
        match result {
            Some((resource, path)) => {
                let remember = match &self.original_path {
                    Some(own) => if same_text(own.as_str(), path.as_str()) {
                        None
                    } else {
                        Some(own.clone())
                    },
                    None => None,
                };
                self.resource = Some(resource);
                remember
            },
            None => {
                self.failed = true;
                None
            },
        }
    }

    /// The resource, once it is loaded.
    pub fn resource(&self) -> (r: Option<&R>)
        ensures
            r == (match self.loaded() {
                Some(resource) => Some(&resource),
                None => None::<&R>,
            }),
    {
        match &self.resource {
            Some(resource) => Some(resource),
            None => None,
        }
    }

    /// Whether the load failed.
    pub fn did_fail(&self) -> (r: bool)
        ensures
            r == self.has_failed(),
    {
        self.failed
    }

    /// The path that the resource goes by.
    pub fn get_path(&self) -> (r: String)
        ensures
            r@ == (match self.own_path() {
                Some(own) => own,
                None => self.load_path(),
            }),
    {
        match &self.original_path {
            Some(own) => own.clone(),
            None => self.path.clone(),
        }
    }
}

/// Shows a loading mark in place of a property until its resource is loaded.
pub struct LazyLoadTokenEditorProperty<R> {
    token: Option<LazyLoadToken<R>>,
    loading_mark: bool,
    hidden: bool,
}

impl<R> LazyLoadTokenEditorProperty<R> {
    /// The token that is waited for.
    pub closed spec fn waits_for(&self) -> Option<LazyLoadToken<R>> {
        self.token
    }

    /// The loading mark is there.
    pub closed spec fn has_mark(&self) -> bool {
        self.loading_mark
    }

    /// The editor has given way to that of the loaded resource.
    pub closed spec fn is_hidden(&self) -> bool {
        self.hidden
    }

    pub fn create(token: Option<LazyLoadToken<R>>) -> (r: LazyLoadTokenEditorProperty<R>)
        ensures
            r.waits_for() == token,
            !r.has_mark(),
            !r.is_hidden(),
    {
        LazyLoadTokenEditorProperty { token, loading_mark: false, hidden: false }
    }

    /// The editor is shown: the loading mark is added.
    pub fn ready(&mut self)
        ensures
            final(self).has_mark(),
            final(self).waits_for() == old(self).waits_for(),
            final(self).is_hidden() == old(self).is_hidden(),
    {
        self.loading_mark = true;
    }

    /// The token that is waited for.
    pub fn token(&self) -> (r: Option<&LazyLoadToken<R>>)
        ensures
            r == (match self.waits_for() {
                Some(token) => Some(&token),
                None => None::<&LazyLoadToken<R>>,
            }),
    {
        match &self.token {
            Some(token) => Some(token),
            None => None,
        }
    }

    /// Whether the load is to be started in this frame. `started` says whether it was already.
    pub fn wants_start(&self, started: bool) -> (r: bool)
        ensures
            r == (self.waits_for() is Some && !started),
    {
        self.token.is_some() && !started
    }

    /// Whether the token is to be given up in this frame and its resource shown. `finished` says
    /// whether the load has come to an end.
    pub fn wants_resource(&self, finished: bool) -> (r: bool)
        ensures
            r == (self.waits_for() is Some && finished),
    {
        self.token.is_some() && finished
    }

    /// Gives the token up, so that its resource is shown once.
    pub fn take_token(&mut self) -> (r: Option<LazyLoadToken<R>>)
        ensures
            r == old(self).waits_for(),
            final(self).waits_for() is None,
            final(self).has_mark() == old(self).has_mark(),
            final(self).is_hidden() == old(self).is_hidden(),
    {
        self.token.take()
    }

    /// The editor of the loaded resource was made, or could not be. Where it was, this editor
    /// gives way to it, and the loading mark goes: whether there was one to remove.
    pub fn update_to_real_editor_property(&mut self, made: bool) -> (r: bool)
        ensures
            r == (made && old(self).has_mark()),
            final(self).waits_for() == old(self).waits_for(),
            made ==> !final(self).has_mark() && final(self).is_hidden(),
            !made ==> final(self).has_mark() == old(self).has_mark() && final(self).is_hidden()
                == old(self).is_hidden(),
    {
        if made {
            let had = self.loading_mark;
            self.loading_mark = false;
            self.hidden = true;
            had
        } else {
            false
        }
    }
}


/// A resource that is there and valid is used, whatever else happened. Else a load that failed
/// gives nothing, a load that Godot does not know is asked for, and any other is taken.
pub proof fn resources_are_loaded_once(there: bool, failed: bool, status: ThreadLoadStatus)
    ensures
        step_to_get(there, failed, status) == GetStep::Ready <==> there,
        step_to_get(there, failed, status) == GetStep::NoResource <==> !there && failed,
        step_to_get(there, failed, status) == GetStep::Request <==> !there && !failed && status
            == ThreadLoadStatus::InvalidResource,
{
}

/// A resource remembers its own path where it was loaded from another, and only there.
pub proof fn resources_remember_their_own_path(own: Option<Seq<char>>, path: Seq<char>)
    ensures
        own is None ==> remembered(own, path) is None,
        own == Some(path) ==> remembered(own, path) is None,
        own is Some && own->0 != path ==> remembered(own, path) == own,
{
}

/// A token is done once its load failed, or once it has a resource, as long as that is valid.
pub proof fn tokens_are_done_with_a_resource<R>(token: LazyLoadToken<R>)
    ensures
        token.has_failed() ==> token.settled(true) && token.settled(false),
        !token.has_failed() ==> !token.settled(false),
        !token.has_failed() ==> (token.settled(true) <==> token.loaded() is Some),
{
}

} // verus!
