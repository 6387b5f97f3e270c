use vstd::prelude::*;

use crate::codec::{
    body_deleted, body_error, body_recipe_added, body_recipes, body_rolled, event_new_recipe,
    event_rolled, event_updated, rpc_added, rpc_recipes, rpc_rolled, snapshot_text,
};
use crate::parse::normalize;
use crate::recipe::{opt_view, Recipe, RecipeV};
use crate::store::Store;
use crate::text::str_eq;
use crate::wire::{
    parse_command, ser_deleted, ser_error, ser_new_recipe_event, ser_recipe_added,
    ser_recipes_response, ser_rolled, ser_rolled_event, ser_rpc_added, ser_rpc_recipes,
    ser_rpc_rolled, ser_snapshot, ser_updated_event, Command, CommandV,
};

verus! {

/// Status of a served request.
pub const STATUS_OK: u16 = 200;

/// Status of a request that created a record.
pub const STATUS_CREATED: u16 = 201;

/// Status of a refused payload or index.
pub const STATUS_BAD_REQUEST: u16 = 400;

/// Status of a method the interface does not serve.
pub const STATUS_METHOD_NOT_ALLOWED: u16 = 405;

/// The transport a command arrived through.
#[derive(Clone, Copy, Debug, PartialEq, Eq, Structural)]
pub enum Channel {
    /// The browser request channel: it is owed a direct reply.
    Http,
    /// The browser push channel: fire-and-forget, informed by broadcast only.
    WebSocket,
    /// The peer channel: it is owed a typed reply.
    Rpc,
}

/// What one handled request asks of the runtime, besides the store change:
/// a direct browser reply, a typed peer reply, a broadcast event, and a
/// snapshot to persist. The snapshot is always written before the broadcast
/// goes out, so no subscriber hears of a change that was not persisted.
pub struct Effects {
    /// Status of the direct browser reply, where one is owed.
    pub http_status: Option<u16>,
    /// Body of the direct browser reply; absent means an empty body.
    pub http_body: Option<String>,
    /// The typed reply to the peer channel.
    pub rpc_reply: Option<String>,
    /// The event pushed to every open subscriber.
    pub broadcast: Option<String>,
    /// The new durable snapshot.
    pub snapshot: Option<String>,
}

/// The text an optional reply carries.
pub open spec fn opt_text(o: Option<String>) -> Option<Seq<char>> {
    match o {
        Some(s) => Some(s@),
        None => None,
    }
}

/// Whether a channel takes the ad-hoc browser payload shapes.
pub open spec fn is_loose(chan: Channel) -> bool {
    chan is Http || chan is WebSocket
}

/// What a roll may select: nothing from an empty collection, else one of
/// its records.
pub open spec fn picked_from(pre: Seq<RecipeV>, picked: Option<RecipeV>) -> bool {
    if pre.len() == 0 {
        picked is None
    } else {
        picked matches Some(r) && exists|i: int| 0 <= i < pre.len() && r == pre[i]
    }
}

/// The replies a roll owes each channel, given what was selected.
pub open spec fn roll_effects(chan: Channel, e: Effects, picked: Option<RecipeV>) -> bool {
    match chan {
        Channel::Http => e.http_status == Some(STATUS_OK) && opt_text(e.http_body) == Some(
            ser_rolled(picked),
        ) && e.rpc_reply is None && e.broadcast is None,
        Channel::WebSocket => e.http_status is None && e.http_body is None && e.rpc_reply is None
            && opt_text(e.broadcast) == Some(ser_rolled_event(picked)),
        Channel::Rpc => e.http_status is None && e.http_body is None && opt_text(e.rpc_reply)
            == Some(ser_rpc_rolled(picked)) && opt_text(e.broadcast) == Some(
            ser_rolled_event(picked),
        ),
    }
}

/// How one applied command relates the store before and after to the
/// effects handed back: the store change, the snapshot and broadcast owed
/// after a mutation, and the reply owed to the originating channel.
pub open spec fn applied(
    pre: Seq<RecipeV>,
    cmd: CommandV,
    chan: Channel,
    post: Seq<RecipeV>,
    e: Effects,
) -> bool {
    match cmd {
        CommandV::Add(r) => {
            &&& post == pre.push(r)
            &&& opt_text(e.snapshot) == Some(ser_snapshot(post))
            &&& opt_text(e.broadcast) == Some(ser_new_recipe_event(r))
            &&& match chan {
                Channel::Http => e.http_status == Some(STATUS_CREATED) && opt_text(e.http_body)
                    == Some(ser_recipe_added(r)) && e.rpc_reply is None,
                Channel::WebSocket => e.http_status is None && e.http_body is None
                    && e.rpc_reply is None,
                Channel::Rpc => e.http_status is None && e.http_body is None && opt_text(
                    e.rpc_reply,
                ) == Some(ser_rpc_added()),
            }
        },
        CommandV::List => {
            &&& post == pre
            &&& e.snapshot is None
            &&& e.broadcast is None
            &&& match chan {
                Channel::Http => e.http_status == Some(STATUS_OK) && opt_text(e.http_body) == Some(
                    ser_recipes_response(pre),
                ) && e.rpc_reply is None,
                Channel::WebSocket => e.http_status is None && e.http_body is None
                    && e.rpc_reply is None,
                Channel::Rpc => e.http_status is None && e.http_body is None && opt_text(
                    e.rpc_reply,
                ) == Some(ser_rpc_recipes(pre)),
            }
        },
        CommandV::Roll => {
            &&& post == pre
            &&& e.snapshot is None
            &&& exists|picked: Option<RecipeV>|
                #[trigger] picked_from(pre, picked) && roll_effects(chan, e, picked)
        },
        CommandV::Delete(ix) => {
            if ix < pre.len() {
                &&& post == pre.remove(ix as int)
                &&& opt_text(e.snapshot) == Some(ser_snapshot(post))
                &&& opt_text(e.broadcast) == Some(ser_updated_event(post))
                &&& match chan {
                    Channel::Http => e.http_status == Some(STATUS_OK) && opt_text(e.http_body)
                        == Some(ser_deleted()) && e.rpc_reply is None,
                    Channel::WebSocket => e.http_status is None && e.http_body is None
                        && e.rpc_reply is None,
                    Channel::Rpc => e.http_status is None && e.http_body is None
                        && e.rpc_reply is None,
                }
            } else {
                &&& post == pre
                &&& e.snapshot is None
                &&& e.broadcast is None
                &&& match chan {
                    Channel::Http => e.http_status == Some(STATUS_BAD_REQUEST) && opt_text(
                        e.http_body,
                    ) == Some(ser_error("Invalid recipe index"@)) && e.rpc_reply is None,
                    Channel::WebSocket => e.http_status is None && e.http_body is None
                        && e.rpc_reply is None,
                    Channel::Rpc => e.http_status is None && e.http_body is None
                        && e.rpc_reply is None,
                }
            }
        },
    }
}

/// How a refused payload is answered: nothing persisted, nothing broadcast,
/// and a client error on the browser request channel alone.
pub open spec fn rejected(chan: Channel, e: Effects) -> bool {
    &&& e.snapshot is None
    &&& e.broadcast is None
    &&& match chan {
        Channel::Http => e.http_status == Some(STATUS_BAD_REQUEST) && opt_text(e.http_body)
            == Some(ser_error("Malformed request"@)) && e.rpc_reply is None,
        Channel::WebSocket => e.http_status is None && e.http_body is None && e.rpc_reply is None,
        Channel::Rpc => e.http_status is None && e.http_body is None && e.rpc_reply is None,
    }
}

/// Effects that ask nothing of the runtime.
fn no_effects() -> (e: Effects)
    ensures
        e.http_status is None,
        e.http_body is None,
        e.rpc_reply is None,
        e.broadcast is None,
        e.snapshot is None,
{
    Effects { http_status: None, http_body: None, rpc_reply: None, broadcast: None, snapshot: None }
}

/// Applies one normalized command to the store and says what each channel
/// is owed in return: the mutation happens exactly once, is snapshotted,
/// and is broadcast; reads answer only their caller.
pub fn apply_command(store: &mut Store, cmd: Command, chan: Channel) -> (e: Effects)
    ensures
        applied(old(store)@, cmd@, chan, final(store)@, e),
{
    match cmd {
        Command::AddRecipe(r) => {
            let rc = r.clone();
            store.append(r);
            let v = store.list();
            let snap = snapshot_text(&v);
            let bc = event_new_recipe(&rc);
            let mut e = no_effects();
            e.snapshot = Some(snap);
            e.broadcast = Some(bc);
            match chan {
                Channel::Http => {
                    e.http_status = Some(STATUS_CREATED);
                    e.http_body = Some(body_recipe_added(&rc));
                },
                Channel::WebSocket => {
                },
                Channel::Rpc => {
                    e.rpc_reply = Some(rpc_added());
                },
            }
            e
        },
        Command::ListRecipes => {
            let mut e = no_effects();
            match chan {
                Channel::Http => {
                    let v = store.list();
                    e.http_status = Some(STATUS_OK);
                    e.http_body = Some(body_recipes(&v));
                },
                Channel::WebSocket => {
                },
                Channel::Rpc => {
                    let v = store.list();
                    e.rpc_reply = Some(rpc_recipes(&v));
                },
            }
            e
        },
        Command::RollRecipe => {
            let picked: Option<Recipe> = if store.is_empty() {
                None
            } else {
                match store.pick_random() {
                    Ok(rec) => Some(rec),
                    Err(_) => {
                        proof {
                            assert(false);
                        }
                        None
                    },
                }
            };
            proof {
                assert(picked_from(old(store)@, opt_view(picked)));
            }
            let mut e = no_effects();
            match chan {
                Channel::Http => {
                    e.http_status = Some(STATUS_OK);
                    e.http_body = Some(body_rolled(&picked));
                },
                Channel::WebSocket => {
                    e.broadcast = Some(event_rolled(&picked));
                },
                Channel::Rpc => {
                    e.rpc_reply = Some(rpc_rolled(&picked));
                    e.broadcast = Some(event_rolled(&picked));
                },
            }
            proof {
                assert(picked_from(old(store)@, opt_view(picked)) && roll_effects(
                    chan,
                    e,
                    opt_view(picked),
                ));
            }
            e
        },
        Command::DeleteRecipe(ix) => {
            let n = store.len();
            if ix < n as u64 {
                let removed = store.remove_at(ix as usize);
                proof {
                    assert(removed is Ok);
                }
                let v = store.list();
                let mut e = no_effects();
                e.snapshot = Some(snapshot_text(&v));
                e.broadcast = Some(event_updated(&v));
                match chan {
                    Channel::Http => {
                        e.http_status = Some(STATUS_OK);
                        e.http_body = Some(body_deleted());
                    },
                    Channel::WebSocket => {
                    },
                    Channel::Rpc => {
                    },
                }
                e
            } else {
                let mut e = no_effects();
                match chan {
                    Channel::Http => {
                        e.http_status = Some(STATUS_BAD_REQUEST);
                        e.http_body = Some(body_error("Invalid recipe index"));
                    },
                    Channel::WebSocket => {
                    },
                    Channel::Rpc => {
                    },
                }
                e
            }
        },
    }
}

/// Handles one raw payload from a channel: normalize it, apply the command,
/// and say what the runtime owes whom. A refused payload mutates nothing,
/// reaches no subscriber, and is answered only on the browser request
/// channel, with a client error.
pub fn handle_payload(store: &mut Store, body: &str, chan: Channel) -> (e: Effects)
    ensures
        parse_command(body@, is_loose(chan)) matches Some(c) ==> applied(
            old(store)@,
            c,
            chan,
            final(store)@,
            e,
        ),
        parse_command(body@, is_loose(chan)) is None ==> final(store)@ == old(store)@ && rejected(
            chan,
            e,
        ),
{
    let loose = match chan {
        Channel::Http | Channel::WebSocket => true,
        Channel::Rpc => false,
    };
    match normalize(body, loose) {
        Ok(cmd) => apply_command(store, cmd, chan),
        Err(_) => {
            let mut e = no_effects();
            match chan {
                Channel::Http => {
                    e.http_status = Some(STATUS_BAD_REQUEST);
                    e.http_body = Some(body_error("Malformed request"));
                },
                Channel::WebSocket => {
                },
                Channel::Rpc => {
                },
            }
            e
        },
    }
}

/// An empty direct reply with the given status, and nothing else.
pub open spec fn bare_status(e: Effects, status: u16) -> bool {
    &&& e.http_status == Some(status)
    &&& e.http_body is None
    &&& e.rpc_reply is None
    &&& e.broadcast is None
    &&& e.snapshot is None
}

/// How one served browser request relates the store before and after to the
/// effects handed back: a read lists, a write runs its payload through
/// normalization, a write without a body is a transport failure answered
/// before normalization, and any other method is refused.
pub open spec fn http_served(
    pre: Seq<RecipeV>,
    method: Seq<char>,
    body: Option<&str>,
    post: Seq<RecipeV>,
    e: Effects,
) -> bool {
    if method == "GET"@ {
        applied(pre, CommandV::List, Channel::Http, post, e)
    } else if method == "POST"@ {
        match body {
            Some(b) => match parse_command(b@, true) {
                Some(c) => applied(pre, c, Channel::Http, post, e),
                None => post == pre && rejected(Channel::Http, e),
            },
            None => post == pre && bare_status(e, STATUS_BAD_REQUEST),
        }
    } else {
        post == pre && bare_status(e, STATUS_METHOD_NOT_ALLOWED)
    }
}

/// Serves one browser request, as `http_served` states.
pub fn handle_http(store: &mut Store, method: &str, body: Option<&str>) -> (e: Effects)
    ensures
        http_served(old(store)@, method@, body, final(store)@, e),
{
    proof {
        reveal_strlit("GET");
        reveal_strlit("POST");
    }
    if str_eq(method, "GET") {
        apply_command(store, Command::ListRecipes, Channel::Http)
    } else if str_eq(method, "POST") {
        match body {
            Some(b) => handle_payload(store, b, Channel::Http),
            None => {
                let mut e = no_effects();
                e.http_status = Some(STATUS_BAD_REQUEST);
                e
            },
        }
    } else {
        let mut e = no_effects();
        e.http_status = Some(STATUS_METHOD_NOT_ALLOWED);
        e
    }
}

} // verus!
