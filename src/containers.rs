use vstd::prelude::*;

verus! {

/// Key under which the chat front-end keeps the bot's application info.
pub struct AppInfoContainer;

/// Key under which the chat front-end keeps the shared `CardStore`.
pub struct CardStoreContainer;

/// Key under which the chat front-end keeps the rock counter.
pub struct RockCounterContainer;

/// Key under which the chat front-end keeps the countdown store.
pub struct CountdownStoreContainer;

/// Key under which the chat front-end keeps the animal picture gateway.
pub struct AnimalGatewayContainer;

/// Key under which the chat front-end keeps the geocoding client.
pub struct NominatimClientContainer;

/// Key under which the chat front-end keeps the weather client.
pub struct OpenWeatherMapClientContainer;

} // verus!
