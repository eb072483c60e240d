//! Routing of API commands to a node's handlers: which requests a node
//! answers, and whether a request goes to the handler of its command, to
//! the default handler, or nowhere. The handlers themselves are closures
//! that the caller keeps by command name and calls as the route says.

use vstd::prelude::*;
use crate::json::{key_index, lemma_key_index_from};
use crate::text::str_equals;

verus! {

/// Where a request goes.
#[derive(Clone, Copy, Debug, PartialEq, Eq, Structural)]
pub enum Route {
    /// The request is for another node.
    NotForThisNode,
    /// The handler registered for the request's command.
    Handler,
    /// The default handler.
    Default,
    /// No handler: the request goes unanswered.
    Unhandled,
}

/// Routes API requests to registered handlers by command name.
pub struct CommandRouter {
    m_node_name: String,
    m_commands: Vec<(String, ())>,
    m_has_default: bool,
}

/// Where a request with `topic` and `command` goes, for a node named `node`
/// with handlers for `commands` and a default handler when `has_default`:
/// requests on another non-empty topic are not for this node; the others go
/// to the handler of their command, else to the default handler.
pub open spec fn route_of(
    node: Seq<char>,
    commands: Set<Seq<char>>,
    has_default: bool,
    topic: Seq<char>,
    command: Seq<char>,
) -> Route {
    if topic.len() > 0 && topic != node {
        Route::NotForThisNode
    } else if commands.contains(command) {
        Route::Handler
    } else if has_default {
        Route::Default
    } else {
        Route::Unhandled
    }
}

impl CommandRouter {
    /// The node's name.
    pub closed spec fn spec_node_name(&self) -> Seq<char> {
        self.m_node_name@
    }

    /// The commands that have a handler.
    pub closed spec fn spec_commands(&self) -> Set<Seq<char>> {
        Set::new(|c: Seq<char>| key_index(self.m_commands@, c) >= 0)
    }

    /// Whether a default handler is set.
    pub closed spec fn spec_has_default(&self) -> bool {
        self.m_has_default
    }

    /// A router with no handlers.
    pub fn new(node_name: &str) -> (r: Self)
        ensures
            r.spec_node_name() == node_name@,
            r.spec_commands() == Set::<Seq<char>>::empty(),
            !r.spec_has_default(),
    {
        let r = CommandRouter {
            m_node_name: node_name.to_owned(),
            m_commands: Vec::new(),
            m_has_default: false,
        };
        assert(r.spec_commands() =~= Set::<Seq<char>>::empty());
        r
    }

    pub fn node_name(&self) -> (r: &str)
        ensures
            r@ == self.spec_node_name(),
    {
        self.m_node_name.as_str()
    }

    /// Registers a handler for `command`, replacing an earlier one.
    pub fn register(&mut self, command: &str)
        ensures
            final(self).spec_commands() == old(self).spec_commands().insert(command@),
            final(self).spec_node_name() == old(self).spec_node_name(),
            final(self).spec_has_default() == old(self).spec_has_default(),
    {
        let ghost before = self.m_commands@;
        proof {
            lemma_key_index_from(before, command@, 0);
        }
        if crate::json::key_position(&self.m_commands, command).is_none() {
            self.m_commands.push((command.to_owned(), ()));
            proof {
                let after = self.m_commands@;
                let n = before.len() as int;
                assert forall|k: Seq<char>| (#[trigger] key_index(after, k) >= 0) == (key_index(before, k) >= 0 || k == command@) by {
                    lemma_key_index_from(before, k, 0);
                    lemma_key_index_from(after, k, 0);
                    if key_index(after, k) >= 0 && key_index(after, k) < n {
                        assert(before[key_index(after, k)].0@ == k);
                    }
                    if key_index(before, k) >= 0 {
                        assert(after[key_index(before, k)].0@ == k);
                    }
                    if k == command@ {
                        assert(after[n].0@ == k);
                    }
                }
            }
        }
        assert(self.spec_commands() =~= old(self).spec_commands().insert(command@));
    }

    /// Sets the handler for commands that have none.
    pub fn set_default_handler(&mut self)
        ensures
            final(self).spec_has_default(),
            final(self).spec_commands() == old(self).spec_commands(),
            final(self).spec_node_name() == old(self).spec_node_name(),
    {
        self.m_has_default = true;
    }

    /// Whether a handler exists for the given command.
    pub fn has_handler(&self, command: &str) -> (r: bool)
        ensures
            r == self.spec_commands().contains(command@),
    {
        proof {
            lemma_key_index_from(self.m_commands@, command@, 0);
        }
        crate::json::key_position(&self.m_commands, command).is_some()
    }

    /// All registered command names.
    pub fn commands(&self) -> (r: Vec<String>)
        ensures
            forall|i: int| 0 <= i < r@.len() ==> self.spec_commands().contains(#[trigger] r@[i]@),
            forall|c: Seq<char>| #[trigger] self.spec_commands().contains(c) ==> exists|i: int|
                0 <= i < r@.len() && r@[i]@ == c,
    {
        let mut r: Vec<String> = Vec::new();
        let mut i: usize = 0;
        while i < self.m_commands.len()
            invariant
                i <= self.m_commands@.len(),
                r@.len() == i,
                forall|j: int| 0 <= j < i ==> #[trigger] r@[j]@ == self.m_commands@[j].0@,
            decreases self.m_commands.len() - i,
        {
            r.push(self.m_commands[i].0.clone());
            i = i + 1;
        }
        proof {
            assert forall|j: int| 0 <= j < r@.len() implies self.spec_commands().contains(#[trigger] r@[j]@) by {
                lemma_key_index_from(self.m_commands@, r@[j]@, 0);
            }
            assert forall|c: Seq<char>| #[trigger] self.spec_commands().contains(c) implies exists|j: int|
                0 <= j < r@.len() && r@[j]@ == c by {
                lemma_key_index_from(self.m_commands@, c, 0);
                let j = key_index(self.m_commands@, c);
                assert(r@[j]@ == c);
            }
        }
        r
    }

    /// Where a request with the given topic and command goes.
    pub fn route(&self, topic: &str, command: &str) -> (r: Route)
        ensures
            r == route_of(
                self.spec_node_name(),
                self.spec_commands(),
                self.spec_has_default(),
                topic@,
                command@,
            ),
    {
        if !topic.is_empty() && !str_equals(topic, self.m_node_name.as_str()) {
            return Route::NotForThisNode;
        }
        if self.has_handler(command) {
            Route::Handler
        } else if self.m_has_default {
            Route::Default
        } else {
            Route::Unhandled
        }
    }
}

/// A request on the node's own topic, or on no topic, for a registered
/// command always reaches that command's handler; one on another topic
/// reaches none.
pub proof fn law_route_by_topic(
    node: Seq<char>,
    commands: Set<Seq<char>>,
    has_default: bool,
    topic: Seq<char>,
    command: Seq<char>,
)
    ensures
        ((topic.len() == 0 || topic == node) && commands.contains(command)) ==> route_of(
            node,
            commands,
            has_default,
            topic,
            command,
        ) == Route::Handler,
        (topic.len() > 0 && topic != node) ==> route_of(node, commands, has_default, topic, command)
            == Route::NotForThisNode,
{
}

} // verus!
