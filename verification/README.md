# engine_gateway

The decisions of a gateway in front of a text-generation engine: how requests are checked and
turned into engine requests, how engine events become responses, which work is taken on while
the gateway drains, where LoRA adapters may be loaded from, and how the weights of a running
engine are administered.

`src/` is the library, proved with Verus. It neither awaits nor touches files, sockets or the
clock: where such work stands between two decisions, the first returns what is to be done and
the next takes its outcome.

- `grpc/convert`: requests, multimodal features and sampling options; responses.
- `grpc/admission`, `grpc/control`, `grpc/inference`, `grpc/kv_events`: the two services.
- `grpc/engine_rpc`: the engine service, its OpenEngine view, and weight administration.
- `lora_path`, `routes`: adapter sources and the HTTP routes.
- `json`, `numbers`, `text`, `lists`, `status`, `engine`, `generation`, `state`: what these use.

Functions of outside crates are called through the few items marked `external_body`. Each says
in its comment what it claims.

`app/` holds the servers around the library, and `tests/` runs it on concrete values.
