# boi_sniper

A bot that buys shares of newly arrived users on AVALANCHE and BSC. It learns of
them from pending transactions and from the site's interface, buys each wallet at
most once, and reports to the console and to a Telegram chat.

`src/` is the library: what is bought, from which events, at what price, and what is
shown and said about it, with contracts proved by Verus.

- `slippage`: the cap on a price, 1.15 times the quote in double precision
- `wei`, `text`, `hexcode`, `signer`: amounts, numbers, letter case, addresses, keys
- `chain`: the supported chains
- `order`: what to buy, and which wallets are taken on
- `mempool`, `watcher`: purchases of others, and the subscription that shows them
- `poller`: new arrivals
- `purchase`: one purchase, from the order to the mined transaction
- `run`, `history`: what holds of a whole purchase, and of everything ever ordered
- `console`, `announce`: what is shown and said

`app/` is the program around it: network, clock, settings and console. It performs
what the library asks for, hands back how that went, and runs the loops.

Among the dependencies, `url` is used by none of the sources: it is held at 2.4.1
because later versions bring in Unicode tables that nothing here needs.

The settings are the variables `PRIVATE_KEY`, `MY_WALLET`, `BOT_TOKEN`, `CHAT_ID`
and, if needed, `COOKIE`, which may stand in a `.env` file.
