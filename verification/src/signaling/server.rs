use vstd::prelude::*;

use crate::reference::{known_ids, tells_of_room, ReferenceDb};
use crate::rtc::config::ICEServerConfig;
use crate::signaling::client::{Client, Reply};
use crate::signaling::packets::{BadRequestError, PacketC2S, PacketS2C, ServerError};
use crate::text::views;

verus! {

/// User capabilities
#[derive(Debug, Eq, PartialEq, Clone, Copy, Hash, Structural)]
pub struct UserCapabilities {
    pub audio: bool,
    pub video: bool,
    pub screenshare: bool,
}

impl Default for UserCapabilities {
    fn default() -> (capabilities: Self)
        ensures
            !capabilities.audio,
            !capabilities.video,
            !capabilities.screenshare,
    {
        UserCapabilities { audio: false, video: false, screenshare: false }
    }
}

/// User Information
#[derive(Debug, Eq, PartialEq, Clone, Hash)]
pub struct UserInformation {
    pub id: String,
    pub capabilities: UserCapabilities,
}

/// What is to be done with a message of someone who is not authenticated yet.
pub enum ConnectionStep {
    /// The token is checked: see [authenticated].
    Authenticate { id: u32, token: String, room_ids: Vec<String> },
    /// The reply is sent, and the next message is waited for.
    Refuse(Reply),
}

/// Authenticate the client: nothing else is accepted before.
pub fn handle_connection(packet: core::result::Result<PacketC2S, BadRequestError>) -> (step:
    ConnectionStep)
    ensures
        step == match packet {
            Ok(PacketC2S::Connect { id, token, room_ids }) => ConnectionStep::Authenticate {
                id,
                token,
                room_ids,
            },
            Ok(_) => ConnectionStep::Refuse(Reply::Server(ServerError::NotAuthenticated)),
            Err(error) => ConnectionStep::Refuse(Reply::BadRequest(error)),
        },
{
    match packet {
        Ok(PacketC2S::Connect { id, token, room_ids }) => ConnectionStep::Authenticate {
            id,
            token,
            room_ids,
        },
        Ok(_) => ConnectionStep::Refuse(Reply::Server(ServerError::NotAuthenticated)),
        Err(error) => ConnectionStep::Refuse(Reply::BadRequest(error)),
    }
}

/// Accepts the client if its token was found good, and says who is in the rooms that it asked for.
pub fn authenticated(
    user: Option<UserInformation>,
    id: u32,
    room_ids: &Vec<String>,
    servers: Vec<ICEServerConfig>,
    db: &ReferenceDb,
) -> (res: core::result::Result<(Client, PacketS2C), ServerError>)
    requires
        db.wf(),
    ensures
        match user {
            None => res == Err::<(Client, PacketS2C), ServerError>(ServerError::FailedToAuthenticate),
            Some(user) => res matches Ok((client, accept)) && {
                &&& client.wf(db)
                &&& client.user == user
                &&& client.room is None
                &&& client.peer.id@ == user.id@
                &&& !client.close_events
                &&& accept matches PacketS2C::Accept {
                    id: request,
                    user_id,
                    ice_servers,
                    available_rooms,
                }
                &&& request == id
                &&& user_id@ == user.id@
                &&& ice_servers == servers
                &&& available_rooms@.len() == known_ids(db.rooms@, views(room_ids@)).len()
                &&& forall|i: int|
                    0 <= i < available_rooms@.len() ==> tells_of_room(
                        #[trigger] available_rooms@[i],
                        db.rooms@[known_ids(db.rooms@, views(room_ids@))[i]],
                    )
            },
        },
{
    match user {
        None => Err(ServerError::FailedToAuthenticate),
        Some(user) => {
            let user_id = user.id.clone();
            // Create a new client
            let client = Client::new(user);
            // Fetch rooms
            let available_rooms = db.fetch_available_rooms(room_ids);
            // Send inmediate response
            let accept = PacketS2C::Accept { id, user_id, ice_servers: servers, available_rooms };
            Ok((client, accept))
        },
    }
}

} // verus!
